use pnwfrc_live::text::{same_text, text_at_most};

#[test]
fn text_order_is_the_order_of_str() {
    let samples = ["", "a", "b", "ab", "2026-03-07", "2026-03-08", "2026-3-1", "é", "z", "éa", "+10000-01-01"];
    for a in samples {
        for b in samples {
            assert_eq!(text_at_most(a, b), a <= b, "{:?} <= {:?}", a, b);
            assert_eq!(same_text(a, b), a == b, "{:?} == {:?}", a, b);
        }
    }
}
