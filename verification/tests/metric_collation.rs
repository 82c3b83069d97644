use std::cmp::Ordering;
use ze2::helpers::MetricFormatter;
use ze2::icu::{collation_order, UCollationResult};

#[test]
fn metric_suffixes() {
    assert_eq!(MetricFormatter(0usize).to_text(), b"0B".to_vec());
    assert_eq!(MetricFormatter(999usize).to_text(), b"999B".to_vec());
    assert_eq!(MetricFormatter(1000usize).to_text(), b"1kB".to_vec());
    assert_eq!(MetricFormatter(1500usize).to_text(), b"1kB".to_vec());
    assert_eq!(MetricFormatter(2_500_000usize).to_text(), b"2MB".to_vec());
    assert_eq!(MetricFormatter(3_000_000_000usize).to_text(), b"3GB".to_vec());
}

#[test]
fn collation_results_become_orderings() {
    assert_eq!(collation_order(UCollationResult::UCOL_LESS), Ordering::Less);
    assert_eq!(collation_order(UCollationResult::UCOL_EQUAL), Ordering::Equal);
    assert_eq!(collation_order(UCollationResult::UCOL_GREATER), Ordering::Greater);
}
