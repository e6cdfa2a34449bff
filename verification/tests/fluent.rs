use gpui_utils::utils::FluentBuilder;

#[derive(Debug, PartialEq)]
struct Label {
    text: String,
}

impl FluentBuilder for Label {}

fn label(text: &str) -> Label {
    Label { text: text.to_string() }
}

fn shout(this: Label) -> Label {
    Label { text: this.text.to_uppercase() }
}

#[test]
fn map_applies_the_closure() {
    assert_eq!(FluentBuilder::map(label("abc"), |this| this.text.len()), 3);
}

#[derive(Debug, PartialEq)]
struct Counted {
    maps: u32,
    whens: u32,
}

// This `map` hands the closure another value than itself, which the contract of the trait
// does not allow: it only serves to see that `map` is called.
impl FluentBuilder for Counted {
    fn map<U>(self, f: impl FnOnce(Self) -> U) -> U {
        f(Counted { maps: self.maps + 1, whens: self.whens })
    }
}

#[test]
fn every_condition_goes_through_map() {
    let bump = |this: Counted| Counted { maps: this.maps, whens: this.whens + 1 };
    let built = Counted { maps: 0, whens: 0 }
        .when(true, bump)
        .when(false, bump)
        .when_else(false, |this| this, bump)
        .when_some(Some(10), |this, n| Counted { maps: this.maps, whens: this.whens + n })
        .when_none(&None::<u32>, bump);
    assert_eq!(built, Counted { maps: 5, whens: 13 });
}

#[test]
fn when_follows_the_condition() {
    assert_eq!(label("abc").when(true, shout), label("ABC"));
    assert_eq!(label("abc").when(false, shout), label("abc"));
}

#[test]
fn when_else_takes_one_branch() {
    let reverse = |this: Label| Label { text: this.text.chars().rev().collect() };
    assert_eq!(label("abc").when_else(true, shout, reverse), label("ABC"));
    assert_eq!(label("abc").when_else(false, shout, reverse), label("cba"));
}

#[test]
fn when_some_unwraps_the_option() {
    let append = |this: Label, n: u32| Label { text: format!("{}{}", this.text, n) };
    assert_eq!(label("abc").when_some(Some(7), append), label("abc7"));
    assert_eq!(label("abc").when_some(None, append), label("abc"));
}

#[test]
fn when_none_is_the_other_way_round() {
    assert_eq!(label("abc").when_none(&None::<u32>, shout), label("ABC"));
    assert_eq!(label("abc").when_none(&Some(7), shout), label("abc"));
}
