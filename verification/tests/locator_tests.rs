use regex::Regex;
use vid2txt::locator::{bare_domain, classify, is_probable_url, PipelineInput};

fn with_patterns(scheme: &Regex, host: &Regex, s: &str) -> bool {
    let s = s.trim();
    if s.is_empty() {
        return false;
    }
    if s.starts_with(".\\") || s.starts_with("./") || s.starts_with("..\\") || s.starts_with("../") {
        return false;
    }
    if s.starts_with('/') || s.starts_with("~/") {
        return false;
    }
    if s.len() >= 3 {
        let bytes = s.as_bytes();
        if bytes[1] == b':' && (bytes[2] == b'\\' || bytes[2] == b'/') && bytes[0].is_ascii_alphabetic() {
            return false;
        }
    }
    if s.starts_with("\\\\") {
        return false;
    }
    if s.to_ascii_lowercase().starts_with("file://") {
        return false;
    }
    if scheme.is_match(s) {
        return true;
    }
    if s.starts_with("//") {
        return true;
    }
    host.is_match(s)
}

fn scheme() -> Regex {
    Regex::new(r"(?i)^(?:https?|ftp)://").unwrap()
}

fn host() -> Regex {
    Regex::new(r"^(?:[A-Za-z0-9-]+\.)+[A-Za-z]{2,63}(?:[/:?#][^\s]*)?$").unwrap()
}

fn pieces() -> Vec<&'static str> {
    vec![
        "", "a", "A", "z9", "-", ".", "..", "/", "\\", ":", "?", "#", "~", " ", "\t", "\u{a0}",
        "com", "co", "c", "uk", "v1", "3", "example", "www", "http", "https", "ftp", "file", "HTTP",
        "FTP", "://", "//", "C", "é", "x y", "\n", "http\u{17f}", "\u{212a}", "\u{17f}",
    ]
}

#[test]
fn bare_domains_are_remote() {
    assert_eq!(classify("example.com"), PipelineInput::RemoteLocator);
    assert_eq!(classify("www.example.co.uk/path?x=1"), PipelineInput::RemoteLocator);
    assert_eq!(classify("youtu.be/xyz"), PipelineInput::RemoteLocator);
}

#[test]
fn names_with_a_last_label_that_is_not_letters_are_local() {
    assert_eq!(classify("report.v1"), PipelineInput::LocalPath);
    assert_eq!(classify("D3.3"), PipelineInput::LocalPath);
}

#[test]
fn a_name_that_ends_in_a_label_of_letters_reads_as_a_host() {
    assert_eq!(classify("file.txt"), PipelineInput::RemoteLocator);
    assert_eq!(classify("clip.mp4"), PipelineInput::LocalPath);
    assert_eq!(classify("clip.webm"), PipelineInput::RemoteLocator);
}

#[test]
fn the_empty_input_is_local() {
    assert_eq!(classify(""), PipelineInput::LocalPath);
    assert_eq!(classify("   "), PipelineInput::LocalPath);
    assert_eq!(classify("\t\n"), PipelineInput::LocalPath);
}

#[test]
fn local_shapes_win_over_anything_that_follows() {
    for s in [
        "./example.com", "../example.com", ".\\example.com", "..\\example.com", "/example.com",
        "~/example.com", "C:\\example.com", "d:/example.com", "\\\\server\\example.com",
        "file://example.com", "FILE://example.com", "./http://example.com", "/http://x",
        "  ./example.com  ", "//example.com/path",
    ] {
        assert_eq!(classify(s), PipelineInput::LocalPath, "input {:?}", s);
    }
}

#[test]
fn known_schemes_are_remote_in_any_case() {
    for s in [
        "http://x", "https://x", "ftp://x", "HTTP://X", "HtTpS://example.com/a b", "FTP://",
        "http://", "  https://example.com  ", "http://./x",
    ] {
        assert_eq!(classify(s), PipelineInput::RemoteLocator, "input {:?}", s);
    }
    assert_eq!(classify("http\u{17f}://x"), PipelineInput::RemoteLocator);
    assert_eq!(classify("httpx://x"), PipelineInput::LocalPath);
    assert_eq!(classify("sftp://x"), PipelineInput::LocalPath);
    assert_eq!(classify("http:/x"), PipelineInput::LocalPath);
}

#[test]
fn a_drive_needs_a_letter_a_colon_and_a_separator() {
    assert_eq!(classify("C:\\videos\\clip"), PipelineInput::LocalPath);
    assert_eq!(classify("c:/videos/clip.com"), PipelineInput::LocalPath);
    assert_eq!(classify("example.com:8080"), PipelineInput::RemoteLocator);
    assert_eq!(classify("1:/x"), PipelineInput::LocalPath);
}

#[test]
fn the_host_grammar_has_its_limits() {
    let chars = |s: &str| -> Vec<char> { s.chars().collect() };
    assert!(bare_domain(&chars("a.bc")));
    assert!(!bare_domain(&chars("a.b")));
    assert!(!bare_domain(&chars(".com")));
    assert!(!bare_domain(&chars("a..com")));
    assert!(!bare_domain(&chars("com")));
    assert!(bare_domain(&chars("a-.-b.com")));
    assert!(bare_domain(&chars("1.2.3.ab")));
    assert!(!bare_domain(&chars("example.com/a b")));
    assert!(bare_domain(&chars("example.com/a%20b")));
    assert!(bare_domain(&chars("example.com#")));
    assert!(!bare_domain(&chars("example.com!")));
    let long = format!("a.{}", "b".repeat(63));
    assert!(bare_domain(&chars(&long)));
    let too_long = format!("a.{}", "b".repeat(64));
    assert!(!bare_domain(&chars(&too_long)));
    assert!(!bare_domain(&chars("é.com")));
    assert!(!bare_domain(&chars("a.cöm")));
}

#[test]
fn classification_agrees_with_the_patterns_on_assembled_inputs() {
    let (scheme, host) = (scheme(), host());
    let p = pieces();
    let mut count = 0;
    for a in &p {
        for b in &p {
            for c in ["", "m", ".", "/", " ", "9", ":", "\\"] {
                let s = format!("{}{}{}", a, b, c);
                assert_eq!(is_probable_url(&s), with_patterns(&scheme, &host, &s), "input {:?}", s);
                let t = format!("{}.{}{}", a, b, c);
                assert_eq!(is_probable_url(&t), with_patterns(&scheme, &host, &t), "input {:?}", t);
                count += 2;
            }
        }
    }
    assert!(count > 20000);
}

#[test]
fn classification_agrees_with_the_patterns_on_longer_inputs() {
    let (scheme, host) = (scheme(), host());
    for s in [
        "www.example.co.uk/path?x=1", "www.example.co.uk/path?x=1 y", "a.b.c.d.e.fg", "a.b.c.d.e.f",
        "sub-domain.example.org:443/x#frag", "EXAMPLE.COM", "example.com.", "example..com",
        "-.com", "a.com?", "a.com?\u{a0}", "a.com/\u{2003}b", "a.com/\u{200b}b", "youtu.be/xyz",
        "  youtu.be/xyz\n", "video.final.cut.mov", "video.final.cut.mp4", "my video.mp4",
        "https", "https:", "https:/", "https://", "hTTps://", "ftp://a", "ftps://a",
        "C:/x", "C:\\x", "C:x", "CC:/x", "é:/x", "\\\\host\\share", "\\host", "~", "~x", "~/x",
        ".", "..", "./", ".\\", "...", "..x", ".x.com", "file:/x", "file://x", "FILE://X", "filex://",
    ] {
        assert_eq!(is_probable_url(s), with_patterns(&scheme, &host, s), "input {:?}", s);
    }
}
