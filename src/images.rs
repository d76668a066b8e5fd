//! Artwork kinds and their conventional file names.
use vstd::prelude::*;
use vstd::string::StringExecFns;

verus! {

/// The three kinds of artwork that a shortcut can have.
#[derive(Clone, Copy, Debug, PartialEq, Eq, Structural)]
pub enum ImageType {
    Hero,
    Grid,
    Logo,
}

/// The character of a single decimal digit.
pub open spec fn digit_char(d: nat) -> char {
    ((48 + d) as u32) as char
}

/// The decimal representation of `n`, most significant digit first.
pub open spec fn decimal(n: nat) -> Seq<char>
    decreases n,
{
    if n < 10 {
        seq![digit_char(n)]
    } else {
        decimal(n / 10) + seq![digit_char(n % 10)]
    }
}

/// What follows the decimal app id in the file name of each artwork kind.
pub open spec fn suffix(t: ImageType) -> Seq<char> {
    match t {
        ImageType::Hero => seq!['_', 'h', 'e', 'r', 'o', '.', 'p', 'n', 'g'],
        ImageType::Grid => seq!['p', '.', 'p', 'n', 'g'],
        ImageType::Logo => seq!['_', 'l', 'o', 'g', 'o', '.', 'p', 'n', 'g'],
    }
}

/// The conventional file name of artwork kind `t` for shortcut `app_id`.
pub open spec fn file_name_of(t: ImageType, app_id: u32) -> Seq<char> {
    decimal(app_id as nat) + suffix(t)
}

/// All artwork kinds, in the order in which they are processed.
pub open spec fn all_types() -> Seq<ImageType> {
    seq![ImageType::Logo, ImageType::Hero, ImageType::Grid]
}

pub fn all_image_types() -> (r: Vec<ImageType>)
    ensures
        r@ == all_types(),
{
    let r = vec![ImageType::Logo, ImageType::Hero, ImageType::Grid];
    assert(r@ =~= all_types());
    r
}

fn digit_str(d: u32) -> (r: &'static str)
    requires
        d < 10,
    ensures
        r@ == seq![digit_char(d as nat)],
{
    proof {
        reveal_strlit("0");
        reveal_strlit("1");
        reveal_strlit("2");
        reveal_strlit("3");
        reveal_strlit("4");
        reveal_strlit("5");
        reveal_strlit("6");
        reveal_strlit("7");
        reveal_strlit("8");
        reveal_strlit("9");
    }
    let r = match d {
        0 => "0",
        1 => "1",
        2 => "2",
        3 => "3",
        4 => "4",
        5 => "5",
        6 => "6",
        7 => "7",
        8 => "8",
        _ => "9",
    };
    assert(r@ =~= seq![digit_char(d as nat)]);
    r
}

/// Appends the decimal representation of `n` to `s`.
pub fn push_decimal(s: &mut String, n: u32)
    ensures
        final(s)@ == old(s)@ + decimal(n as nat),
    decreases n,
{
    if n >= 10 {
        push_decimal(s, n / 10);
    }
    s.append(digit_str(n % 10));
    assert(final(s)@ =~= old(s)@ + decimal(n as nat));
}

impl ImageType {
    fn suffix_str(&self) -> (r: &'static str)
        ensures
            r@ == suffix(*self),
    {
        proof {
            reveal_strlit("_hero.png");
            reveal_strlit("p.png");
            reveal_strlit("_logo.png");
        }
        let r = match self {
            ImageType::Hero => "_hero.png",
            ImageType::Grid => "p.png",
            ImageType::Logo => "_logo.png",
        };
        assert(r@ =~= suffix(*self));
        r
    }

    /// The name of the file that holds this kind of artwork for `app_id`.
    pub fn file_name(&self, app_id: u32) -> (r: String)
        ensures
            r@ == file_name_of(*self, app_id),
    {
        let mut s = String::new();
        push_decimal(&mut s, app_id);
        s.append(self.suffix_str());
        assert(s@ =~= file_name_of(*self, app_id));
        s
    }
}

} // verus!
