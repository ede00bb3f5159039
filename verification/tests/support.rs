use recorder::support;

#[test]
fn generate() {
    let names = support::generate(&[(&["a#b", "c#d"], 2), (&["e#f", "g#h"], 1)]);
    assert_eq!(&names[..], &["a0b", "c0d", "a1b", "c1d", "e0f", "g0h"]);
}
