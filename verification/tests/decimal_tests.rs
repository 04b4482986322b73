use meetily_models::decimal::{parse_u16, parse_u64, u64_to_decimal};

#[test]
fn decimal_round_trip() {
    for n in [0u64, 7, 10, 99, 100, 12345, u64::MAX] {
        let text = u64_to_decimal(n);
        assert_eq!(text, n.to_string());
        assert_eq!(parse_u64(&text), Some(n));
    }
}

#[test]
fn parsing_follows_std() {
    for s in ["", "+", "-1", "-0", "1a", " 1", "18446744073709551616", "+12", "007", "65535", "65536"] {
        assert_eq!(parse_u64(s), s.parse::<u64>().ok(), "u64 {:?}", s);
        assert_eq!(parse_u16(s), s.parse::<u16>().ok(), "u16 {:?}", s);
    }
}
