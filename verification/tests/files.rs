use esmail::files::{format_size, safe_attachment_filename};

#[test]
fn format_size_uses_bytes_below_one_kb() {
    assert_eq!(format_size(0), "0 B");
    assert_eq!(format_size(1023), "1023 B");
}

#[test]
fn format_size_uses_kb_between_one_kb_and_one_mb() {
    assert_eq!(format_size(1024), "1.0 KB");
    assert_eq!(format_size(4300), "4.2 KB");
}

#[test]
fn format_size_uses_mb_at_one_mb_and_above() {
    assert_eq!(format_size(1024 * 1024), "1.0 MB");
    assert_eq!(format_size(5 * 1024 * 1024 + 512 * 1024), "5.5 MB");
}

fn in_floating_point(bytes: usize) -> String {
    let b = bytes as f64;
    if b >= 1048576.0 {
        format!("{:.1} MB", b / 1048576.0)
    } else if b >= 1024.0 {
        format!("{:.1} KB", b / 1024.0)
    } else {
        format!("{} B", b as u64)
    }
}

#[test]
fn format_size_rounds_as_floating_point_does() {
    for n in 0..70000usize {
        assert_eq!(format_size(n), in_floating_point(n), "{n}");
    }
    for k in 0..4000usize {
        let n = 1024 * 1024 - 2000 + k * 13;
        assert_eq!(format_size(n), in_floating_point(n), "{n}");
        let m = (1usize << 20) * 7 + k * 26214;
        assert_eq!(format_size(m), in_floating_point(m), "{m}");
    }
}

#[test]
fn format_size_rounds_huge_sizes_as_floating_point_does() {
    for base in [1usize << 53, 1 << 54, 1 << 60, 1 << 63] {
        for k in 0..5000usize {
            let n = base + k;
            assert_eq!(format_size(n), in_floating_point(n), "{n}");
            let m = base + k * 52429;
            assert_eq!(format_size(m), in_floating_point(m), "{m}");
        }
    }
    for k in 0..3000usize {
        let n = usize::MAX - k;
        assert_eq!(format_size(n), in_floating_point(n), "{n}");
    }
}

#[test]
fn format_size_takes_the_even_digit_on_a_tie() {
    assert_eq!(format_size(1280), "1.2 KB");
    assert_eq!(format_size(1792), "1.8 KB");
}

#[test]
fn safe_attachment_filename_passes_an_ordinary_name_through() {
    assert_eq!(safe_attachment_filename("report.pdf"), "report.pdf");
}

#[test]
fn safe_attachment_filename_strips_relative_traversal() {
    assert_eq!(safe_attachment_filename("../../../evil.exe"), "evil.exe");
    assert_eq!(safe_attachment_filename("../../etc/passwd"), "passwd");
}

#[test]
fn safe_attachment_filename_strips_a_windows_absolute_path() {
    assert_eq!(
        safe_attachment_filename(r"C:\Windows\System32\evil.dll"),
        "evil.dll"
    );
}

#[test]
fn safe_attachment_filename_falls_back_when_nothing_usable_remains() {
    assert_eq!(safe_attachment_filename(""), "attachment");
    assert_eq!(safe_attachment_filename(".."), "attachment");
    assert_eq!(safe_attachment_filename("/"), "attachment");
}

#[test]
fn safe_attachment_filename_never_keeps_a_separator() {
    for s in ["a/b\\c", "a\\b/c", "x/.", "x\\..", "...", "a/..b", "é/ü"] {
        let name = safe_attachment_filename(s);
        assert!(!name.contains('/') && !name.contains('\\') && !name.is_empty());
        assert!(name != "." && name != "..");
    }
    assert_eq!(safe_attachment_filename("x/..."), "...");
}
