//! Resident memory of the process.
use hypomnesis::ram::parse_vmrss;

#[test]
fn parse_vmrss_basic() {
    let status = "Name:\tcat\nVmPeak:\t  50000 kB\nVmRSS:\t   12345 kB\nThreads:\t1\n";
    let rss = parse_vmrss(status).unwrap();
    assert_eq!(rss, 12_345 * 1024);
}

#[test]
fn parse_vmrss_zero() {
    let status = "VmRSS:\t       0 kB\n";
    let rss = parse_vmrss(status).unwrap();
    assert_eq!(rss, 0);
}

#[test]
fn parse_vmrss_no_kb_suffix() {
    let status = "VmRSS:\t   42\n";
    let rss = parse_vmrss(status).unwrap();
    assert_eq!(rss, 42 * 1024);
}

#[test]
fn parse_vmrss_missing() {
    let status = "Name:\tcat\nVmPeak:\t  50000 kB\nThreads:\t1\n";
    let err = parse_vmrss(status).unwrap_err();
    assert!(err.message().contains("VmRSS not found"));
}

#[test]
fn parse_vmrss_unparseable() {
    let status = "Name:\tcat\nVmRSS:\tnot_a_number kB\n";
    let err = parse_vmrss(status).unwrap_err();
    assert!(err.message().contains("failed to parse"));
}

#[test]
fn parse_vmrss_real_proc_status() {
    let status = "Name:\tbash\n\
        Umask:\t0022\n\
        State:\tS (sleeping)\n\
        Tgid:\t12345\n\
        VmPeak:\t   12000 kB\n\
        VmSize:\t   11000 kB\n\
        VmLck:\t       0 kB\n\
        VmRSS:\t    4096 kB\n\
        VmData:\t     500 kB\n\
        Threads:\t1\n";
    let rss = parse_vmrss(status).unwrap();
    assert_eq!(rss, 4096 * 1024);
}
