use lmrs::color::{Color, ColorCycler, TAB10};

#[test]
fn test_color_cycler() {
    let mut cycler = ColorCycler::default();
    for i in 0..=11 {
        assert_eq!(cycler.cycle(), TAB10[i % 10]);
    }
}

#[test]
fn rgb_cycler_starts_over() {
    let mut cycler = ColorCycler::new();
    let got: Vec<&str> = (0..8).map(|_| cycler.cycle()).collect();
    assert_eq!(
        got,
        vec!["red", "green", "blue", "cyan", "magenta", "yellow", "red", "green"]
    );
}

#[test]
fn color_to_hex() {
    assert_eq!(Color(255, 0, 16).to_hex(), "#FF0010");
    assert_eq!(Color(0, 0, 0).to_hex(), "#000000");
    assert_eq!(Color(171, 205, 239).to_hex(), "#ABCDEF");
}
