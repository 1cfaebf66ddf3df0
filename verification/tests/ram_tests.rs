use quill::ram::{byte_count_mb, mem_total_mb, mem_total_of_line, ram_mb_or_fallback, FALLBACK_RAM_MB};

fn lines(text: &str) -> Vec<String> {
    text.lines().map(|l| l.to_string()).collect()
}

#[test]
fn mem_total_in_mib() {
    let meminfo = lines("MemTotal:       16318372 kB\nMemFree:         1234567 kB\n");
    assert_eq!(mem_total_mb(&meminfo), Some(16318372 / 1024));
}

#[test]
fn first_readable_total_wins() {
    let meminfo = lines("MemFree: 1 kB\nMemTotal: lots kB\nMemTotal: 2048 kB\nMemTotal: 4096 kB");
    assert_eq!(mem_total_mb(&meminfo), Some(2));
}

#[test]
fn line_forms() {
    assert_eq!(mem_total_of_line("MemTotal: 1023 kB"), Some(0));
    assert_eq!(mem_total_of_line("MemTotal:"), None);
    assert_eq!(mem_total_of_line(" MemTotal: 2048 kB"), None);
    assert_eq!(mem_total_of_line("MemTotal:2048 kB"), None);
    assert_eq!(mem_total_of_line("MemTotal: +2048"), Some(2));
}

#[test]
fn fallback_without_total() {
    assert_eq!(ram_mb_or_fallback(&Vec::new()), FALLBACK_RAM_MB);
    assert_eq!(ram_mb_or_fallback(&lines("MemFree: 10 kB")), 4096);
    assert_eq!(ram_mb_or_fallback(&lines("MemTotal: 8192000 kB")), 8000);
}

#[test]
fn byte_counts() {
    assert_eq!(byte_count_mb("17179869184\n"), Some(16384));
    assert_eq!(byte_count_mb("  1048575  "), Some(0));
    assert_eq!(byte_count_mb(""), None);
    assert_eq!(byte_count_mb("8 GB"), None);
}
