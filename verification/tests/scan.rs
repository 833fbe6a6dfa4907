use sourcetrait::scan::{lines, split_words, trim_chars};

fn c(s: &str) -> Vec<char> {
    s.chars().collect()
}

fn strs(v: Vec<Vec<char>>) -> Vec<String> {
    v.into_iter().map(|l| l.into_iter().collect()).collect()
}

#[test]
fn lines_as_str_lines() {
    for s in ["", "\n", "a", "a\n", "a\r\nb", "a\n\nb\r\n", "x\r", "\r\n\r\n"] {
        let want: Vec<String> = s.lines().map(|l| l.to_string()).collect();
        assert_eq!(strs(lines(&c(s))), want, "{s:?}");
    }
}

#[test]
fn words_as_split_whitespace() {
    for s in ["", "  ", "a", " a  b\tc\n", "\u{2003}x\u{a0}y "] {
        let want: Vec<String> = s.split_whitespace().map(|l| l.to_string()).collect();
        assert_eq!(strs(split_words(&c(s))), want, "{s:?}");
    }
}

#[test]
fn trim_as_str_trim() {
    for s in ["", " ", " a b ", "\t\nx\u{3000}", "y"] {
        let t: String = trim_chars(&c(s)).into_iter().collect();
        assert_eq!(t, s.trim());
    }
}

use sourcetrait::stdx::{TryFromTransformer, TryFromWith, TryIntoWith};

struct Scale(u32);

#[derive(Debug, PartialEq)]
struct Scaled(u32);

impl<'w> TryFromWith<'w, u32> for Scaled {
    type Error = &'static str;
    type With = &'w Scale;

    fn try_from_with(value: u32, with: &'w Scale) -> Result<Self, Self::Error> {
        value.checked_mul(with.0).map(Scaled).ok_or("overflow")
    }
}

impl<'w> TryFromTransformer<'w, Scaled, u32> for Scale {
    fn try_transform_from(&'w self, value: u32) -> Result<Scaled, &'static str> {
        Scaled::try_from_with(value, self)
    }
}

#[test]
fn conversions_with_a_transformer() {
    let scale = Scale(3);
    let s: Result<Scaled, _> = 5u32.try_into_with(&scale);
    assert_eq!(s, Ok(Scaled(15)));
    assert_eq!(scale.try_transform_from(u32::MAX), Err("overflow"));
}
