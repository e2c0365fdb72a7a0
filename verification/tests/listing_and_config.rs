//! Listing entries, timestamp rendering, and server configuration.

use catshell::config::ServerConfig;
use catshell::dec::u64_to_dec;
use catshell::listing::{format_time_simple, FileInfo, FileType};

#[test]
fn decimal_rendering_exact_values() {
    assert_eq!(u64_to_dec(0), b"0".to_vec());
    assert_eq!(u64_to_dec(7), b"7".to_vec());
    assert_eq!(u64_to_dec(10), b"10".to_vec());
    assert_eq!(u64_to_dec(1234), b"1234".to_vec());
    assert_eq!(u64_to_dec(1000000), b"1000000".to_vec());
    assert_eq!(u64_to_dec(u64::MAX), b"18446744073709551615".to_vec());
}

#[test]
fn time_is_rendered_as_epoch_seconds() {
    assert_eq!(format_time_simple(Some(0)), "0".to_string());
    assert_eq!(format_time_simple(Some(1699999999)), "1699999999".to_string());
}

#[test]
fn time_before_the_epoch_is_unknown() {
    assert_eq!(format_time_simple(None), "Unknown".to_string());
}

#[test]
fn entries_are_classified_from_metadata_flags() {
    let d = FileInfo::new(b"/srv/a".to_vec(), b"a".to_vec(), true, false, 0, 5);
    assert_eq!(d.file_type, FileType::Directory);
    let f = FileInfo::new(b"/srv/b".to_vec(), b"b".to_vec(), false, true, 42, 5);
    assert_eq!(f.file_type, FileType::File);
    assert_eq!(f.size, 42);
    assert_eq!(f.modified, 5);
    let o = FileInfo::new(b"/srv/c".to_vec(), b"c".to_vec(), false, false, 0, 5);
    assert_eq!(o.file_type, FileType::Other);
}

#[test]
fn dot_names_are_hidden() {
    let h = FileInfo::new(b"/srv/.git".to_vec(), b".git".to_vec(), true, false, 0, 0);
    assert!(h.is_hidden);
    let p = FileInfo::new(b"/srv/readme".to_vec(), b"readme".to_vec(), false, true, 1, 0);
    assert!(!p.is_hidden);
}

#[test]
fn bind_address_names_the_loopback_and_port() {
    let c = ServerConfig::new(b"/srv".to_vec(), 8000);
    assert_eq!(c.bind_address(), b"127.0.0.1:8000".to_vec());
    let c2 = ServerConfig::new(b"/srv".to_vec(), 80);
    assert_eq!(c2.bind_address(), b"127.0.0.1:80".to_vec());
    assert_eq!(c2.root_directory, b"/srv".to_vec());
    assert_eq!(c2.port, 80);
}
