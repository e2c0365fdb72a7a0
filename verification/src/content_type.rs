//! Choice of a `Content-Type` for a served file.
//!
//! The type is chosen from the file extension alone, lower-cased and
//! looked up in a fixed table; an unknown or missing extension falls
//! back to `application/octet-stream`. No file content is inspected.

use crate::util::{bytes_eq, copy_range};
use vstd::prelude::*;

verus! {

/// The position of the last occurrence of `b` in `s`, if any.
pub open spec fn last_byte_pos(s: Seq<u8>, b: u8) -> Option<int>
    decreases s.len(),
{
    if s.len() == 0 {
        None
    } else if s.last() == b {
        Some(s.len() - 1)
    } else {
        last_byte_pos(s.drop_last(), b)
    }
}

/// The part of a path after its last `/`; the whole path without one.
pub open spec fn file_name_of(p: Seq<u8>) -> Seq<u8> {
    match last_byte_pos(p, '/' as u8) {
        Some(i) => p.skip(i + 1),
        None => p,
    }
}

/// The extension of a file name: what follows the last `.`, provided
/// that dot is not the leading byte. A name with no dot, or with only
/// a leading one, has no extension.
pub open spec fn ext_of(name: Seq<u8>) -> Option<Seq<u8>> {
    match last_byte_pos(name, '.' as u8) {
        Some(i) => if i >= 1 {
            Some(name.skip(i + 1))
        } else {
            None
        },
        None => None,
    }
}

/// ASCII lower-casing of one byte.
pub open spec fn to_lower_byte(b: u8) -> u8 {
    if 'A' as u8 <= b <= 'Z' as u8 {
        (b + 32) as u8
    } else {
        b
    }
}

/// ASCII lower-casing of a byte sequence.
pub open spec fn lower(s: Seq<u8>) -> Seq<u8> {
    s.map_values(|b: u8| to_lower_byte(b))
}

/// The fixed extension table: lower-cased extension to MIME string.
pub open spec fn mime_of_ext(e: Option<Seq<u8>>) -> Seq<u8> {
    match e {
        None => mime_octet_stream(),
        Some(x) => {
            let l = lower(x);
            if l == ext_html() || l == ext_htm() {
                mime_html()
            } else if l == ext_css() {
                mime_css()
            } else if l == ext_js() {
                mime_js()
            } else if l == ext_json() {
                mime_json()
            } else if l == ext_png() {
                mime_png()
            } else if l == ext_jpg() || l == ext_jpeg() {
                mime_jpeg()
            } else if l == ext_gif() {
                mime_gif()
            } else if l == ext_svg() {
                mime_svg()
            } else if l == ext_txt() {
                mime_plain()
            } else {
                mime_octet_stream()
            }
        },
    }
}

/// The MIME string served for a file path.
pub open spec fn content_type_of(path: Seq<u8>) -> Seq<u8> {
    mime_of_ext(ext_of(file_name_of(path)))
}

/// The extension `html`.
pub open spec fn ext_html() -> Seq<u8> {
    seq!['h' as u8, 't' as u8, 'm' as u8, 'l' as u8]
}

/// The extension `htm`.
pub open spec fn ext_htm() -> Seq<u8> {
    seq!['h' as u8, 't' as u8, 'm' as u8]
}

/// The extension `css`.
pub open spec fn ext_css() -> Seq<u8> {
    seq!['c' as u8, 's' as u8, 's' as u8]
}

/// The extension `js`.
pub open spec fn ext_js() -> Seq<u8> {
    seq!['j' as u8, 's' as u8]
}

/// The extension `json`.
pub open spec fn ext_json() -> Seq<u8> {
    seq!['j' as u8, 's' as u8, 'o' as u8, 'n' as u8]
}

/// The extension `png`.
pub open spec fn ext_png() -> Seq<u8> {
    seq!['p' as u8, 'n' as u8, 'g' as u8]
}

/// The extension `jpg`.
pub open spec fn ext_jpg() -> Seq<u8> {
    seq!['j' as u8, 'p' as u8, 'g' as u8]
}

/// The extension `jpeg`.
pub open spec fn ext_jpeg() -> Seq<u8> {
    seq!['j' as u8, 'p' as u8, 'e' as u8, 'g' as u8]
}

/// The extension `gif`.
pub open spec fn ext_gif() -> Seq<u8> {
    seq!['g' as u8, 'i' as u8, 'f' as u8]
}

/// The extension `svg`.
pub open spec fn ext_svg() -> Seq<u8> {
    seq!['s' as u8, 'v' as u8, 'g' as u8]
}

/// The extension `txt`.
pub open spec fn ext_txt() -> Seq<u8> {
    seq!['t' as u8, 'x' as u8, 't' as u8]
}

/// The MIME string `text/html`.
pub open spec fn mime_html() -> Seq<u8> {
    seq!['t' as u8, 'e' as u8, 'x' as u8, 't' as u8, '/' as u8, 'h' as u8, 't' as u8, 'm' as u8, 'l' as u8]
}

/// The MIME string `text/css`.
pub open spec fn mime_css() -> Seq<u8> {
    seq!['t' as u8, 'e' as u8, 'x' as u8, 't' as u8, '/' as u8, 'c' as u8, 's' as u8, 's' as u8]
}

/// The MIME string `application/javascript`.
pub open spec fn mime_js() -> Seq<u8> {
    seq!['a' as u8, 'p' as u8, 'p' as u8, 'l' as u8, 'i' as u8, 'c' as u8, 'a' as u8, 't' as u8, 'i' as u8, 'o' as u8, 'n' as u8, '/' as u8, 'j' as u8, 'a' as u8, 'v' as u8, 'a' as u8, 's' as u8, 'c' as u8, 'r' as u8, 'i' as u8, 'p' as u8, 't' as u8]
}

/// The MIME string `application/json`.
pub open spec fn mime_json() -> Seq<u8> {
    seq!['a' as u8, 'p' as u8, 'p' as u8, 'l' as u8, 'i' as u8, 'c' as u8, 'a' as u8, 't' as u8, 'i' as u8, 'o' as u8, 'n' as u8, '/' as u8, 'j' as u8, 's' as u8, 'o' as u8, 'n' as u8]
}

/// The MIME string `image/png`.
pub open spec fn mime_png() -> Seq<u8> {
    seq!['i' as u8, 'm' as u8, 'a' as u8, 'g' as u8, 'e' as u8, '/' as u8, 'p' as u8, 'n' as u8, 'g' as u8]
}

/// The MIME string `image/jpeg`.
pub open spec fn mime_jpeg() -> Seq<u8> {
    seq!['i' as u8, 'm' as u8, 'a' as u8, 'g' as u8, 'e' as u8, '/' as u8, 'j' as u8, 'p' as u8, 'e' as u8, 'g' as u8]
}

/// The MIME string `image/gif`.
pub open spec fn mime_gif() -> Seq<u8> {
    seq!['i' as u8, 'm' as u8, 'a' as u8, 'g' as u8, 'e' as u8, '/' as u8, 'g' as u8, 'i' as u8, 'f' as u8]
}

/// The MIME string `image/svg+xml`.
pub open spec fn mime_svg() -> Seq<u8> {
    seq!['i' as u8, 'm' as u8, 'a' as u8, 'g' as u8, 'e' as u8, '/' as u8, 's' as u8, 'v' as u8, 'g' as u8, '+' as u8, 'x' as u8, 'm' as u8, 'l' as u8]
}

/// The MIME string `text/plain`.
pub open spec fn mime_plain() -> Seq<u8> {
    seq!['t' as u8, 'e' as u8, 'x' as u8, 't' as u8, '/' as u8, 'p' as u8, 'l' as u8, 'a' as u8, 'i' as u8, 'n' as u8]
}

/// The MIME string `application/octet-stream`.
pub open spec fn mime_octet_stream() -> Seq<u8> {
    seq!['a' as u8, 'p' as u8, 'p' as u8, 'l' as u8, 'i' as u8, 'c' as u8, 'a' as u8, 't' as u8, 'i' as u8, 'o' as u8, 'n' as u8, '/' as u8, 'o' as u8, 'c' as u8, 't' as u8, 'e' as u8, 't' as u8, '-' as u8, 's' as u8, 't' as u8, 'r' as u8, 'e' as u8, 'a' as u8, 'm' as u8]
}

fn ext_html_vec() -> (v: Vec<u8>)
    ensures
        v@ == ext_html(),
{
    let v: Vec<u8> = vec!['h' as u8, 't' as u8, 'm' as u8, 'l' as u8];
    proof {
        assert(v@ =~= ext_html());
    }
    v
}

fn ext_htm_vec() -> (v: Vec<u8>)
    ensures
        v@ == ext_htm(),
{
    let v: Vec<u8> = vec!['h' as u8, 't' as u8, 'm' as u8];
    proof {
        assert(v@ =~= ext_htm());
    }
    v
}

fn ext_css_vec() -> (v: Vec<u8>)
    ensures
        v@ == ext_css(),
{
    let v: Vec<u8> = vec!['c' as u8, 's' as u8, 's' as u8];
    proof {
        assert(v@ =~= ext_css());
    }
    v
}

fn ext_js_vec() -> (v: Vec<u8>)
    ensures
        v@ == ext_js(),
{
    let v: Vec<u8> = vec!['j' as u8, 's' as u8];
    proof {
        assert(v@ =~= ext_js());
    }
    v
}

fn ext_json_vec() -> (v: Vec<u8>)
    ensures
        v@ == ext_json(),
{
    let v: Vec<u8> = vec!['j' as u8, 's' as u8, 'o' as u8, 'n' as u8];
    proof {
        assert(v@ =~= ext_json());
    }
    v
}

fn ext_png_vec() -> (v: Vec<u8>)
    ensures
        v@ == ext_png(),
{
    let v: Vec<u8> = vec!['p' as u8, 'n' as u8, 'g' as u8];
    proof {
        assert(v@ =~= ext_png());
    }
    v
}

fn ext_jpg_vec() -> (v: Vec<u8>)
    ensures
        v@ == ext_jpg(),
{
    let v: Vec<u8> = vec!['j' as u8, 'p' as u8, 'g' as u8];
    proof {
        assert(v@ =~= ext_jpg());
    }
    v
}

fn ext_jpeg_vec() -> (v: Vec<u8>)
    ensures
        v@ == ext_jpeg(),
{
    let v: Vec<u8> = vec!['j' as u8, 'p' as u8, 'e' as u8, 'g' as u8];
    proof {
        assert(v@ =~= ext_jpeg());
    }
    v
}

fn ext_gif_vec() -> (v: Vec<u8>)
    ensures
        v@ == ext_gif(),
{
    let v: Vec<u8> = vec!['g' as u8, 'i' as u8, 'f' as u8];
    proof {
        assert(v@ =~= ext_gif());
    }
    v
}

fn ext_svg_vec() -> (v: Vec<u8>)
    ensures
        v@ == ext_svg(),
{
    let v: Vec<u8> = vec!['s' as u8, 'v' as u8, 'g' as u8];
    proof {
        assert(v@ =~= ext_svg());
    }
    v
}

fn ext_txt_vec() -> (v: Vec<u8>)
    ensures
        v@ == ext_txt(),
{
    let v: Vec<u8> = vec!['t' as u8, 'x' as u8, 't' as u8];
    proof {
        assert(v@ =~= ext_txt());
    }
    v
}

/// Builds the MIME string `text/html`.
pub fn mime_html_vec() -> (v: Vec<u8>)
    ensures
        v@ == mime_html(),
{
    let v: Vec<u8> = vec!['t' as u8, 'e' as u8, 'x' as u8, 't' as u8, '/' as u8, 'h' as u8, 't' as u8, 'm' as u8, 'l' as u8];
    proof {
        assert(v@ =~= mime_html());
    }
    v
}

/// Builds the MIME string `text/css`.
pub fn mime_css_vec() -> (v: Vec<u8>)
    ensures
        v@ == mime_css(),
{
    let v: Vec<u8> = vec!['t' as u8, 'e' as u8, 'x' as u8, 't' as u8, '/' as u8, 'c' as u8, 's' as u8, 's' as u8];
    proof {
        assert(v@ =~= mime_css());
    }
    v
}

/// Builds the MIME string `application/javascript`.
pub fn mime_js_vec() -> (v: Vec<u8>)
    ensures
        v@ == mime_js(),
{
    let v: Vec<u8> = vec!['a' as u8, 'p' as u8, 'p' as u8, 'l' as u8, 'i' as u8, 'c' as u8, 'a' as u8, 't' as u8, 'i' as u8, 'o' as u8, 'n' as u8, '/' as u8, 'j' as u8, 'a' as u8, 'v' as u8, 'a' as u8, 's' as u8, 'c' as u8, 'r' as u8, 'i' as u8, 'p' as u8, 't' as u8];
    proof {
        assert(v@ =~= mime_js());
    }
    v
}

/// Builds the MIME string `application/json`.
pub fn mime_json_vec() -> (v: Vec<u8>)
    ensures
        v@ == mime_json(),
{
    let v: Vec<u8> = vec!['a' as u8, 'p' as u8, 'p' as u8, 'l' as u8, 'i' as u8, 'c' as u8, 'a' as u8, 't' as u8, 'i' as u8, 'o' as u8, 'n' as u8, '/' as u8, 'j' as u8, 's' as u8, 'o' as u8, 'n' as u8];
    proof {
        assert(v@ =~= mime_json());
    }
    v
}

/// Builds the MIME string `image/png`.
pub fn mime_png_vec() -> (v: Vec<u8>)
    ensures
        v@ == mime_png(),
{
    let v: Vec<u8> = vec!['i' as u8, 'm' as u8, 'a' as u8, 'g' as u8, 'e' as u8, '/' as u8, 'p' as u8, 'n' as u8, 'g' as u8];
    proof {
        assert(v@ =~= mime_png());
    }
    v
}

/// Builds the MIME string `image/jpeg`.
pub fn mime_jpeg_vec() -> (v: Vec<u8>)
    ensures
        v@ == mime_jpeg(),
{
    let v: Vec<u8> = vec!['i' as u8, 'm' as u8, 'a' as u8, 'g' as u8, 'e' as u8, '/' as u8, 'j' as u8, 'p' as u8, 'e' as u8, 'g' as u8];
    proof {
        assert(v@ =~= mime_jpeg());
    }
    v
}

/// Builds the MIME string `image/gif`.
pub fn mime_gif_vec() -> (v: Vec<u8>)
    ensures
        v@ == mime_gif(),
{
    let v: Vec<u8> = vec!['i' as u8, 'm' as u8, 'a' as u8, 'g' as u8, 'e' as u8, '/' as u8, 'g' as u8, 'i' as u8, 'f' as u8];
    proof {
        assert(v@ =~= mime_gif());
    }
    v
}

/// Builds the MIME string `image/svg+xml`.
pub fn mime_svg_vec() -> (v: Vec<u8>)
    ensures
        v@ == mime_svg(),
{
    let v: Vec<u8> = vec!['i' as u8, 'm' as u8, 'a' as u8, 'g' as u8, 'e' as u8, '/' as u8, 's' as u8, 'v' as u8, 'g' as u8, '+' as u8, 'x' as u8, 'm' as u8, 'l' as u8];
    proof {
        assert(v@ =~= mime_svg());
    }
    v
}

/// Builds the MIME string `text/plain`.
pub fn mime_plain_vec() -> (v: Vec<u8>)
    ensures
        v@ == mime_plain(),
{
    let v: Vec<u8> = vec!['t' as u8, 'e' as u8, 'x' as u8, 't' as u8, '/' as u8, 'p' as u8, 'l' as u8, 'a' as u8, 'i' as u8, 'n' as u8];
    proof {
        assert(v@ =~= mime_plain());
    }
    v
}

/// Builds the MIME string `application/octet-stream`.
pub fn mime_octet_stream_vec() -> (v: Vec<u8>)
    ensures
        v@ == mime_octet_stream(),
{
    let v: Vec<u8> = vec!['a' as u8, 'p' as u8, 'p' as u8, 'l' as u8, 'i' as u8, 'c' as u8, 'a' as u8, 't' as u8, 'i' as u8, 'o' as u8, 'n' as u8, '/' as u8, 'o' as u8, 'c' as u8, 't' as u8, 'e' as u8, 't' as u8, '-' as u8, 's' as u8, 't' as u8, 'r' as u8, 'e' as u8, 'a' as u8, 'm' as u8];
    proof {
        assert(v@ =~= mime_octet_stream());
    }
    v
}

/// The position of the last occurrence of `b` in `s`, if any.
fn rfind_byte(s: &Vec<u8>, b: u8) -> (r: Option<usize>)
    ensures
        match r {
            Some(i) => i < s@.len() && last_byte_pos(s@, b) == Some(i as int),
            None => last_byte_pos(s@, b) is None,
        },
{
    let mut i: usize = s.len();
    proof {
        assert(s@.take(s@.len() as int) =~= s@);
    }
    while i > 0
        invariant
            i <= s@.len(),
            last_byte_pos(s@, b) == last_byte_pos(s@.take(i as int), b),
        decreases i,
    {
        proof {
            assert(s@.take(i as int).last() == s@[i as int - 1]);
            assert(s@.take(i as int).drop_last() =~= s@.take(i as int - 1));
        }
        if s[i - 1] == b {
            return Some(i - 1);
        }
        i -= 1;
    }
    proof {
        assert(s@.take(0) =~= Seq::<u8>::empty());
    }
    None
}

/// ASCII lower-casing of a byte vector.
fn ascii_lower(s: &Vec<u8>) -> (r: Vec<u8>)
    ensures
        r@ == lower(s@),
{
    let mut r: Vec<u8> = Vec::new();
    let mut k: usize = 0;
    while k < s.len()
        invariant
            k <= s@.len(),
            r@.len() == k as int,
            forall|j: int| 0 <= j < k ==> r@[j] == to_lower_byte(s@[j]),
        decreases s@.len() - k,
    {
        let b = s[k];
        let lb: u8 = if b >= 'A' as u8 && b <= 'Z' as u8 {
            b + 32
        } else {
            b
        };
        r.push(lb);
        k += 1;
    }
    proof {
        assert(r@ =~= lower(s@));
    }
    r
}

/// Chooses the MIME string for a file path from its extension,
/// lower-cased, by the fixed table; `application/octet-stream` for an
/// unknown or missing extension.
pub fn get_content_type(path: &Vec<u8>) -> (r: Vec<u8>)
    ensures
        r@ == content_type_of(path@),
{
    let name = match rfind_byte(path, '/' as u8) {
        Some(i) => copy_range(path, i + 1, path.len()),
        None => copy_range(path, 0, path.len()),
    };
    proof {
        assert(path@.subrange(0, path@.len() as int) =~= path@);
        if last_byte_pos(path@, '/' as u8) is Some {
            let i = last_byte_pos(path@, '/' as u8)->0;
            assert(path@.subrange(i + 1, path@.len() as int) =~= path@.skip(i + 1));
        }
        assert(name@ == file_name_of(path@));
    }
    match rfind_byte(&name, '.' as u8) {
        Some(i) => {
            if i >= 1 {
                let e = copy_range(&name, i + 1, name.len());
                proof {
                    assert(name@.subrange(i as int + 1, name@.len() as int) =~= name@.skip(
                        i as int + 1,
                    ));
                    assert(ext_of(name@) == Some(e@));
                }
                let l = ascii_lower(&e);
                if bytes_eq(&l, &ext_html_vec()) || bytes_eq(&l, &ext_htm_vec()) {
                    mime_html_vec()
                } else if bytes_eq(&l, &ext_css_vec()) {
                    mime_css_vec()
                } else if bytes_eq(&l, &ext_js_vec()) {
                    mime_js_vec()
                } else if bytes_eq(&l, &ext_json_vec()) {
                    mime_json_vec()
                } else if bytes_eq(&l, &ext_png_vec()) {
                    mime_png_vec()
                } else if bytes_eq(&l, &ext_jpg_vec()) || bytes_eq(&l, &ext_jpeg_vec()) {
                    mime_jpeg_vec()
                } else if bytes_eq(&l, &ext_gif_vec()) {
                    mime_gif_vec()
                } else if bytes_eq(&l, &ext_svg_vec()) {
                    mime_svg_vec()
                } else if bytes_eq(&l, &ext_txt_vec()) {
                    mime_plain_vec()
                } else {
                    mime_octet_stream_vec()
                }
            } else {
                mime_octet_stream_vec()
            }
        },
        None => mime_octet_stream_vec(),
    }
}

} // verus!
