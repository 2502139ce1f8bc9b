//! The diagram model: entities, attributes, relations, cardinalities and
//! formatting options, together with the assembler that builds a model from
//! a parse tree.

use vstd::prelude::*;

verus! {

/// Describes the count constraint at one side of a relation.
#[derive(Clone, Copy, Debug, PartialEq, Eq, Structural)]
pub enum Cardinality {
    /// Zero or one.
    ZeroOne,
    /// Exactly one.
    One,
    /// Zero or more.
    ZeroPlus,
    /// One or more.
    OnePlus,
}

impl Cardinality {
    /// The display form of a cardinality: `{0,1}`, `1`, `0..N` or `1..N`.
    pub open spec fn spec_text(self) -> Seq<char> {
        match self {
            Cardinality::ZeroOne => "{0,1}"@,
            Cardinality::One => "1"@,
            Cardinality::ZeroPlus => "0..N"@,
            Cardinality::OnePlus => "1..N"@,
        }
    }

    /// The display form of a cardinality, used as an edge label: zero-or-one
    /// shows as `{0,1}`, exactly-one as `1`, zero-or-more as `0..N` and
    /// one-or-more as `1..N`.
    pub fn text(&self) -> (r: &'static str)
        ensures
            r@ == self.spec_text(),
    {
        match self {
            Cardinality::ZeroOne => "{0,1}",
            Cardinality::One => "1",
            Cardinality::ZeroPlus => "0..N",
            Cardinality::OnePlus => "1..N",
        }
    }
}

/// The fixed table mapping a cardinality symbol to its meaning; any other
/// character maps to nothing.
pub open spec fn spec_card_by_name(c: char) -> Option<Cardinality> {
    if c == '?' {
        Some(Cardinality::ZeroOne)
    } else if c == '1' {
        Some(Cardinality::One)
    } else if c == '*' {
        Some(Cardinality::ZeroPlus)
    } else if c == '+' {
        Some(Cardinality::OnePlus)
    } else {
        None
    }
}

/// Resolves a cardinality symbol: `?` means zero-or-one, `1` exactly one,
/// `*` zero-or-more and `+` one-or-more; every other character yields `None`.
pub fn card_by_name(c: char) -> (r: Option<Cardinality>)
    ensures
        r == spec_card_by_name(c),
{
    if c == '?' {
        Some(Cardinality::ZeroOne)
    } else if c == '1' {
        Some(Cardinality::One)
    } else if c == '*' {
        Some(Cardinality::ZeroPlus)
    } else if c == '+' {
        Some(Cardinality::OnePlus)
    } else {
        None
    }
}

// ---------------------------------------------------------------------------
// Formatting options
// ---------------------------------------------------------------------------

/// A single formatting option. Textual values are kept as written (with the
/// surrounding quotes already stripped); the numeric `FontSize` value keeps
/// the literal text it was written with, validated as a number; the
/// small-integer values are converted.
#[derive(Clone, Debug, PartialEq)]
pub enum Opt {
    Label(String),
    BgColor(String),
    Color(String),
    FontFace(String),
    FontSize(String),
    Border(u8),
    BorderColor(String),
    CellSpacing(u8),
    CellBorder(u8),
    CellPadding(u8),
    TextAlignment(String),
}

/// The mathematical shape of an [`Opt`].
pub enum OptView {
    Label(Seq<char>),
    BgColor(Seq<char>),
    Color(Seq<char>),
    FontFace(Seq<char>),
    FontSize(Seq<char>),
    Border(u8),
    BorderColor(Seq<char>),
    CellSpacing(u8),
    CellBorder(u8),
    CellPadding(u8),
    TextAlignment(Seq<char>),
}

impl View for Opt {
    type V = OptView;

    open spec fn view(&self) -> OptView {
        match self {
            Opt::Label(s) => OptView::Label(s@),
            Opt::BgColor(s) => OptView::BgColor(s@),
            Opt::Color(s) => OptView::Color(s@),
            Opt::FontFace(s) => OptView::FontFace(s@),
            Opt::FontSize(s) => OptView::FontSize(s@),
            Opt::Border(n) => OptView::Border(*n),
            Opt::BorderColor(s) => OptView::BorderColor(s@),
            Opt::CellSpacing(n) => OptView::CellSpacing(*n),
            Opt::CellBorder(n) => OptView::CellBorder(*n),
            Opt::CellPadding(n) => OptView::CellPadding(*n),
            Opt::TextAlignment(s) => OptView::TextAlignment(s@),
        }
    }
}

impl DeepView for Opt {
    type V = OptView;

    open spec fn deep_view(&self) -> OptView {
        self.view()
    }
}

/// Identifies an option slot: each recognized option key names exactly one
/// of these, and each [`Opt`] variant fills exactly one of them.
#[derive(Clone, Copy, Debug, PartialEq, Eq, Structural)]
pub enum OptKey {
    Label,
    BgColor,
    Color,
    FontFace,
    FontSize,
    Border,
    BorderColor,
    CellSpacing,
    CellBorder,
    CellPadding,
    TextAlignment,
}

/// The key under which an option value is stored.
pub open spec fn spec_opt_key(o: OptView) -> OptKey {
    match o {
        OptView::Label(_) => OptKey::Label,
        OptView::BgColor(_) => OptKey::BgColor,
        OptView::Color(_) => OptKey::Color,
        OptView::FontFace(_) => OptKey::FontFace,
        OptView::FontSize(_) => OptKey::FontSize,
        OptView::Border(_) => OptKey::Border,
        OptView::BorderColor(_) => OptKey::BorderColor,
        OptView::CellSpacing(_) => OptKey::CellSpacing,
        OptView::CellBorder(_) => OptKey::CellBorder,
        OptView::CellPadding(_) => OptKey::CellPadding,
        OptView::TextAlignment(_) => OptKey::TextAlignment,
    }
}

/// The textual name of an option key, as it is written in source text and
/// in rendered HTML attributes.
pub open spec fn spec_key_name(k: OptKey) -> Seq<char> {
    match k {
        OptKey::Label => "label"@,
        OptKey::BgColor => "bgcolor"@,
        OptKey::Color => "color"@,
        OptKey::FontFace => "font"@,
        OptKey::FontSize => "size"@,
        OptKey::Border => "border"@,
        OptKey::BorderColor => "border-color"@,
        OptKey::CellSpacing => "cellspacing"@,
        OptKey::CellBorder => "cellborder"@,
        OptKey::CellPadding => "cellpadding"@,
        OptKey::TextAlignment => "text-alignment"@,
    }
}

/// The option key named by a piece of text, if it is one of the recognized
/// names.
pub open spec fn spec_key_of_name(name: Seq<char>) -> Option<OptKey> {
    if name == "label"@ {
        Some(OptKey::Label)
    } else if name == "color"@ {
        Some(OptKey::Color)
    } else if name == "bgcolor"@ {
        Some(OptKey::BgColor)
    } else if name == "size"@ {
        Some(OptKey::FontSize)
    } else if name == "font"@ {
        Some(OptKey::FontFace)
    } else if name == "border"@ {
        Some(OptKey::Border)
    } else if name == "border-color"@ {
        Some(OptKey::BorderColor)
    } else if name == "cellspacing"@ {
        Some(OptKey::CellSpacing)
    } else if name == "cellborder"@ {
        Some(OptKey::CellBorder)
    } else if name == "cellpadding"@ {
        Some(OptKey::CellPadding)
    } else if name == "text-alignment"@ {
        Some(OptKey::TextAlignment)
    } else {
        None
    }
}

impl Opt {
    /// The key slot this option value fills.
    pub fn key(&self) -> (k: OptKey)
        ensures
            k == spec_opt_key(self@),
    {
        match self {
            Opt::Label(_) => OptKey::Label,
            Opt::BgColor(_) => OptKey::BgColor,
            Opt::Color(_) => OptKey::Color,
            Opt::FontFace(_) => OptKey::FontFace,
            Opt::FontSize(_) => OptKey::FontSize,
            Opt::Border(_) => OptKey::Border,
            Opt::BorderColor(_) => OptKey::BorderColor,
            Opt::CellSpacing(_) => OptKey::CellSpacing,
            Opt::CellBorder(_) => OptKey::CellBorder,
            Opt::CellPadding(_) => OptKey::CellPadding,
            Opt::TextAlignment(_) => OptKey::TextAlignment,
        }
    }

    /// The HTML attribute name for the option, equal to the key it is
    /// written under in source text.
    pub fn html_attr_name(&self) -> (r: &'static str)
        ensures
            r@ == spec_key_name(spec_opt_key(self@)),
    {
        match self {
            Opt::Label(_) => "label",
            Opt::Color(_) => "color",
            Opt::BgColor(_) => "bgcolor",
            Opt::FontSize(_) => "size",
            Opt::FontFace(_) => "font",
            Opt::Border(_) => "border",
            Opt::BorderColor(_) => "border-color",
            Opt::CellSpacing(_) => "cellspacing",
            Opt::CellBorder(_) => "cellborder",
            Opt::CellPadding(_) => "cellpadding",
            Opt::TextAlignment(_) => "text-alignment",
        }
    }
}

// ---------------------------------------------------------------------------
// Text helpers
// ---------------------------------------------------------------------------

/// Character-for-character equality of two string slices.
pub fn str_eq(a: &str, b: &str) -> (r: bool)
    ensures
        r == (a@ == b@),
{
    let na = a.unicode_len();
    let nb = b.unicode_len();
    if na != nb {
        proof {
            assert(a@ != b@);
        }
        false
    } else {
        let r = str_eq_from(a, b, na, 0);
        proof {
            if r {
                assert(a@ =~= b@);
            }
        }
        r
    }
}

fn str_eq_from(a: &str, b: &str, n: usize, i: usize) -> (r: bool)
    requires
        a@.len() == n,
        b@.len() == n,
        i <= n,
    ensures
        r == (forall|k: int| i <= k < n ==> a@[k] == b@[k]),
    decreases n - i,
{
    if i < n {
        let ca = a.get_char(i);
        let cb = b.get_char(i);
        if ca == cb {
            str_eq_from(a, b, n, i + 1)
        } else {
            assert(a@[i as int] != b@[i as int]);
            false
        }
    } else {
        true
    }
}

/// The position after any run of double-quote characters starting at `i`.
pub open spec fn spec_quotes_start(s: Seq<char>, i: int) -> int
    decreases s.len() - i,
{
    if 0 <= i < s.len() && s[i] == '"' {
        spec_quotes_start(s, i + 1)
    } else {
        i
    }
}

/// The position before any run of double-quote characters ending at `j`.
pub open spec fn spec_quotes_end(s: Seq<char>, j: int) -> int
    decreases j,
{
    if 0 < j <= s.len() && s[j - 1] == '"' {
        spec_quotes_end(s, j - 1)
    } else {
        j
    }
}

/// The text with every leading and trailing double-quote character removed.
pub open spec fn spec_trim_quotes(s: Seq<char>) -> Seq<char> {
    let a = spec_quotes_start(s, 0);
    let b = spec_quotes_end(s, s.len() as int);
    if a <= b {
        s.subrange(a, b)
    } else {
        Seq::empty()
    }
}

fn quotes_start(s: &str, n: usize, i: usize) -> (r: usize)
    requires
        n == s@.len(),
        i <= n,
    ensures
        i <= r <= n,
        r as int == spec_quotes_start(s@, i as int),
    decreases n - i,
{
    if i < n && s.get_char(i) == '"' {
        quotes_start(s, n, i + 1)
    } else {
        i
    }
}

fn quotes_end(s: &str, j: usize) -> (r: usize)
    requires
        j <= s@.len(),
    ensures
        r <= j,
        r as int == spec_quotes_end(s@, j as int),
    decreases j,
{
    if j > 0 && s.get_char(j - 1) == '"' {
        quotes_end(s, j - 1)
    } else {
        j
    }
}

/// Removes every double-quote character from the start and the end of a
/// string.
pub fn trim_quotes<'a>(s: &'a str) -> (r: &'a str)
    ensures
        r@ == spec_trim_quotes(s@),
{
    let n = s.unicode_len();
    let a = quotes_start(s, n, 0);
    let b = quotes_end(s, n);
    if a <= b {
        s.substring_char(a, b)
    } else {
        let r = s.substring_char(0, 0);
        proof {
            assert(r@ =~= Seq::<char>::empty());
        }
        r
    }
}

// ---------------------------------------------------------------------------
// Numeric option values
// ---------------------------------------------------------------------------

/// An ASCII decimal digit.
pub open spec fn is_digit_char(c: char) -> bool {
    48 <= c as u32 <= 57
}

/// The numeric value of an ASCII decimal digit.
pub open spec fn spec_digit_val(c: char) -> nat {
    (c as u32 - 48) as nat
}

/// Folds the digits of `s` from position `i` into the accumulator `acc`;
/// `None` as soon as a non-digit appears.
pub open spec fn spec_digits_val(s: Seq<char>, i: int, acc: nat) -> Option<nat>
    decreases s.len() - i,
{
    if i < 0 || i >= s.len() {
        Some(acc)
    } else if is_digit_char(s[i]) {
        spec_digits_val(s, i + 1, acc * 10 + spec_digit_val(s[i]))
    } else {
        None
    }
}

proof fn lemma_digits_val_ge(s: Seq<char>, i: int, acc: nat)
    ensures
        spec_digits_val(s, i, acc) matches Some(v) ==> v >= acc,
    decreases s.len() - i,
{
    if 0 <= i < s.len() && is_digit_char(s[i]) {
        lemma_digits_val_ge(s, i + 1, acc * 10 + spec_digit_val(s[i]));
    }
}

/// The value of a small unsigned integer written in decimal: an optional
/// leading `+`, then one or more digits, denoting a value of at most 255.
/// Anything else has no value.
pub open spec fn spec_parse_u8(s: Seq<char>) -> Option<u8> {
    let start: int = if s.len() > 0 && s[0] == '+' {
        1
    } else {
        0
    };
    if start < s.len() {
        match spec_digits_val(s, start, 0) {
            Some(v) => if v <= 255 {
                Some(v as u8)
            } else {
                None
            },
            None => None,
        }
    } else {
        None
    }
}

fn parse_u8_digits(s: &str, n: usize, i: usize, acc: u32) -> (r: Option<u8>)
    requires
        n == s@.len(),
        i <= n,
        acc <= 255,
    ensures
        match spec_digits_val(s@, i as int, acc as nat) {
            Some(v) => if v <= 255 {
                r matches Some(x) && x as nat == v
            } else {
                r is None
            },
            None => r is None,
        },
    decreases n - i,
{
    if i < n {
        let c = s.get_char(i);
        let cu = c as u32;
        if 48 <= cu && cu <= 57 {
            let acc2 = acc * 10 + (cu - 48);
            if acc2 > 255 {
                proof {
                    lemma_digits_val_ge(s@, i as int + 1, acc2 as nat);
                }
                None
            } else {
                parse_u8_digits(s, n, i + 1, acc2)
            }
        } else {
            None
        }
    } else {
        Some(acc as u8)
    }
}

/// Converts the decimal text of a small unsigned integer, exactly when
/// [`spec_parse_u8`] gives it a value.
pub fn parse_u8_text(s: &str) -> (r: Option<u8>)
    ensures
        r == spec_parse_u8(s@),
{
    let n = s.unicode_len();
    let start: usize = if n > 0 && s.get_char(0) == '+' {
        1
    } else {
        0
    };
    if start < n {
        parse_u8_digits(s, n, start, 0)
    } else {
        None
    }
}

/// The position of the first non-digit at or after `i`.
pub open spec fn spec_digits_end(s: Seq<char>, i: int) -> int
    decreases s.len() - i,
{
    if 0 <= i < s.len() && is_digit_char(s[i]) {
        spec_digits_end(s, i + 1)
    } else {
        i
    }
}

fn digits_end(s: &str, n: usize, i: usize) -> (r: usize)
    requires
        n == s@.len(),
        i <= n,
    ensures
        i <= r <= n,
        r as int == spec_digits_end(s@, i as int),
    decreases n - i,
{
    if i < n {
        let cu = s.get_char(i) as u32;
        if 48 <= cu && cu <= 57 {
            return digits_end(s, n, i + 1);
        }
    }
    i
}

/// A character, compared to a letter in either case.
pub open spec fn ci_eq(c: char, lo: char, up: char) -> bool {
    c == lo || c == up
}

/// The word `inf`, in any mix of cases.
pub open spec fn is_inf_text(s: Seq<char>) -> bool {
    s.len() == 3 && ci_eq(s[0], 'i', 'I') && ci_eq(s[1], 'n', 'N') && ci_eq(s[2], 'f', 'F')
}

/// The word `infinity`, in any mix of cases.
pub open spec fn is_infinity_text(s: Seq<char>) -> bool {
    &&& s.len() == 8
    &&& ci_eq(s[0], 'i', 'I')
    &&& ci_eq(s[1], 'n', 'N')
    &&& ci_eq(s[2], 'f', 'F')
    &&& ci_eq(s[3], 'i', 'I')
    &&& ci_eq(s[4], 'n', 'N')
    &&& ci_eq(s[5], 'i', 'I')
    &&& ci_eq(s[6], 't', 'T')
    &&& ci_eq(s[7], 'y', 'Y')
}

/// The word `nan`, in any mix of cases.
pub open spec fn is_nan_text(s: Seq<char>) -> bool {
    s.len() == 3 && ci_eq(s[0], 'n', 'N') && ci_eq(s[1], 'a', 'A') && ci_eq(s[2], 'n', 'N')
}

/// From position `i`, either the end of the text or a well-formed exponent
/// part: `e` or `E`, an optional sign, and one or more digits reaching the
/// end.
pub open spec fn spec_exp_ok(s: Seq<char>, i: int) -> bool {
    if i == s.len() {
        true
    } else if 0 <= i < s.len() && (s[i] == 'e' || s[i] == 'E') {
        let j: int = if i + 1 < s.len() && (s[i + 1] == '+' || s[i + 1] == '-') {
            i + 2
        } else {
            i + 1
        };
        j < s.len() && spec_digits_end(s, j) == s.len()
    } else {
        false
    }
}

/// A finite decimal number: digits with an optional point, optional
/// fractional digits and an optional exponent; or a point followed by
/// digits and an optional exponent.
pub open spec fn is_number_text(s: Seq<char>) -> bool {
    let d1 = spec_digits_end(s, 0);
    if d1 > 0 {
        let i: int = if d1 < s.len() && s[d1] == '.' {
            d1 + 1
        } else {
            d1
        };
        spec_exp_ok(s, spec_digits_end(s, i))
    } else if s.len() > 0 && s[0] == '.' {
        let d2 = spec_digits_end(s, 1);
        d2 > 1 && spec_exp_ok(s, d2)
    } else {
        false
    }
}

/// The texts that denote a floating-point number: an optional sign followed
/// by `inf`, `infinity` or `nan` in any case, or a finite decimal number.
pub open spec fn is_float_text(s: Seq<char>) -> bool {
    let b: Seq<char> = if s.len() > 0 && (s[0] == '+' || s[0] == '-') {
        s.subrange(1, s.len() as int)
    } else {
        s
    };
    is_inf_text(b) || is_infinity_text(b) || is_nan_text(b) || is_number_text(b)
}

fn exp_ok(s: &str, n: usize, i: usize) -> (r: bool)
    requires
        n == s@.len(),
        i <= n,
    ensures
        r == spec_exp_ok(s@, i as int),
{
    if i == n {
        true
    } else {
        let c = s.get_char(i);
        if c == 'e' || c == 'E' {
            let j: usize = if i + 1 < n {
                let c2 = s.get_char(i + 1);
                if c2 == '+' || c2 == '-' {
                    i + 2
                } else {
                    i + 1
                }
            } else {
                i + 1
            };
            j < n && digits_end(s, n, j) == n
        } else {
            false
        }
    }
}

fn number_text(s: &str, n: usize) -> (r: bool)
    requires
        n == s@.len(),
    ensures
        r == is_number_text(s@),
{
    let d1 = digits_end(s, n, 0);
    if d1 > 0 {
        let i: usize = if d1 < n && s.get_char(d1) == '.' {
            d1 + 1
        } else {
            d1
        };
        let d2 = digits_end(s, n, i);
        exp_ok(s, n, d2)
    } else if n > 0 && s.get_char(0) == '.' {
        let d2 = digits_end(s, n, 1);
        d2 > 1 && exp_ok(s, n, d2)
    } else {
        false
    }
}

/// Decides whether a text denotes a floating-point number, exactly as
/// [`is_float_text`] describes.
pub fn float_text(s: &str) -> (r: bool)
    ensures
        r == is_float_text(s@),
{
    let n = s.unicode_len();
    let b: &str = if n > 0 {
        let c = s.get_char(0);
        if c == '+' || c == '-' {
            s.substring_char(1, n)
        } else {
            s
        }
    } else {
        s
    };
    let bn = b.unicode_len();
    if bn == 3 {
        let c0 = b.get_char(0);
        let c1 = b.get_char(1);
        let c2 = b.get_char(2);
        if (c0 == 'i' || c0 == 'I') && (c1 == 'n' || c1 == 'N') && (c2 == 'f' || c2 == 'F') {
            return true;
        }
        if (c0 == 'n' || c0 == 'N') && (c1 == 'a' || c1 == 'A') && (c2 == 'n' || c2 == 'N') {
            return true;
        }
    }
    if bn == 8 {
        let c0 = b.get_char(0);
        let c1 = b.get_char(1);
        let c2 = b.get_char(2);
        let c3 = b.get_char(3);
        let c4 = b.get_char(4);
        let c5 = b.get_char(5);
        let c6 = b.get_char(6);
        let c7 = b.get_char(7);
        if (c0 == 'i' || c0 == 'I') && (c1 == 'n' || c1 == 'N') && (c2 == 'f' || c2 == 'F') && (c3
            == 'i' || c3 == 'I') && (c4 == 'n' || c4 == 'N') && (c5 == 'i' || c5 == 'I') && (c6
            == 't' || c6 == 'T') && (c7 == 'y' || c7 == 'Y') {
            return true;
        }
    }
    number_text(b, bn)
}

// ---------------------------------------------------------------------------
// Looking an option up by its key
// ---------------------------------------------------------------------------

/// The mathematical shape of the result of [`option_by_name`].
pub open spec fn spec_option_by_name(name: Seq<char>, value: Seq<char>) -> Result<
    OptView,
    crate::errors::ErrorView,
> {
    let v = spec_trim_quotes(value);
    match spec_key_of_name(name) {
        Some(OptKey::Label) => Ok(OptView::Label(v)),
        Some(OptKey::Color) => Ok(OptView::Color(v)),
        Some(OptKey::BgColor) => Ok(OptView::BgColor(v)),
        Some(OptKey::FontSize) => if is_float_text(v) {
            Ok(OptView::FontSize(v))
        } else {
            Err(crate::errors::ErrorView::InvalidFloat(v))
        },
        Some(OptKey::FontFace) => Ok(OptView::FontFace(v)),
        Some(OptKey::Border) => match spec_parse_u8(v) {
            Some(x) => Ok(OptView::Border(x)),
            None => Err(crate::errors::ErrorView::InvalidInt(v)),
        },
        Some(OptKey::BorderColor) => Ok(OptView::BorderColor(v)),
        Some(OptKey::CellSpacing) => match spec_parse_u8(v) {
            Some(x) => Ok(OptView::CellSpacing(x)),
            None => Err(crate::errors::ErrorView::InvalidInt(v)),
        },
        Some(OptKey::CellBorder) => match spec_parse_u8(v) {
            Some(x) => Ok(OptView::CellBorder(x)),
            None => Err(crate::errors::ErrorView::InvalidInt(v)),
        },
        Some(OptKey::CellPadding) => match spec_parse_u8(v) {
            Some(x) => Ok(OptView::CellPadding(x)),
            None => Err(crate::errors::ErrorView::InvalidInt(v)),
        },
        Some(OptKey::TextAlignment) => Ok(OptView::TextAlignment(v)),
        None => Err(crate::errors::ErrorView::UnknownFormatOption(name)),
    }
}

/// The view of a parse result over options.
pub open spec fn res_opt_view(r: Result<Opt, crate::errors::Error>) -> Result<
    OptView,
    crate::errors::ErrorView,
> {
    match r {
        Ok(o) => Ok(o@),
        Err(e) => Err(e@),
    }
}

/// Finds the recognized option key that a piece of text names.
pub fn key_of_name(name: &str) -> (r: Option<OptKey>)
    ensures
        r == spec_key_of_name(name@),
{
    if str_eq(name, "label") {
        Some(OptKey::Label)
    } else if str_eq(name, "color") {
        Some(OptKey::Color)
    } else if str_eq(name, "bgcolor") {
        Some(OptKey::BgColor)
    } else if str_eq(name, "size") {
        Some(OptKey::FontSize)
    } else if str_eq(name, "font") {
        Some(OptKey::FontFace)
    } else if str_eq(name, "border") {
        Some(OptKey::Border)
    } else if str_eq(name, "border-color") {
        Some(OptKey::BorderColor)
    } else if str_eq(name, "cellspacing") {
        Some(OptKey::CellSpacing)
    } else if str_eq(name, "cellborder") {
        Some(OptKey::CellBorder)
    } else if str_eq(name, "cellpadding") {
        Some(OptKey::CellPadding)
    } else if str_eq(name, "text-alignment") {
        Some(OptKey::TextAlignment)
    } else {
        None
    }
}

/// Given an option name and the text of its value (possibly still wrapped
/// in its double quotes), parses the value as the typed option the name
/// stands for: text keys are copied as written, `size` must be a number,
/// and the small-integer keys must convert; an unrecognized name is an
/// error naming the key, and a failed conversion is an error naming the
/// offending text.
pub fn option_by_name(name: &str, value: &str) -> (r: Result<Opt, crate::errors::Error>)
    ensures
        res_opt_view(r) == spec_option_by_name(name@, value@),
{
    let v = trim_quotes(value);
    match key_of_name(name) {
        Some(OptKey::Label) => Ok(Opt::Label(String::from_str(v))),
        Some(OptKey::Color) => Ok(Opt::Color(String::from_str(v))),
        Some(OptKey::BgColor) => Ok(Opt::BgColor(String::from_str(v))),
        Some(OptKey::FontSize) => if float_text(v) {
            Ok(Opt::FontSize(String::from_str(v)))
        } else {
            Err(crate::errors::Error::InvalidFloat(String::from_str(v)))
        },
        Some(OptKey::FontFace) => Ok(Opt::FontFace(String::from_str(v))),
        Some(OptKey::Border) => match parse_u8_text(v) {
            Some(x) => Ok(Opt::Border(x)),
            None => Err(crate::errors::Error::InvalidInt(String::from_str(v))),
        },
        Some(OptKey::BorderColor) => Ok(Opt::BorderColor(String::from_str(v))),
        Some(OptKey::CellSpacing) => match parse_u8_text(v) {
            Some(x) => Ok(Opt::CellSpacing(x)),
            None => Err(crate::errors::Error::InvalidInt(String::from_str(v))),
        },
        Some(OptKey::CellBorder) => match parse_u8_text(v) {
            Some(x) => Ok(Opt::CellBorder(x)),
            None => Err(crate::errors::Error::InvalidInt(String::from_str(v))),
        },
        Some(OptKey::CellPadding) => match parse_u8_text(v) {
            Some(x) => Ok(Opt::CellPadding(x)),
            None => Err(crate::errors::Error::InvalidInt(String::from_str(v))),
        },
        Some(OptKey::TextAlignment) => Ok(Opt::TextAlignment(String::from_str(v))),
        None => Err(crate::errors::Error::UnknownFormatOption(String::from_str(name))),
    }
}

// ---------------------------------------------------------------------------
// Option sets
// ---------------------------------------------------------------------------

/// The mathematical shape of an option set: later entries of the entry list
/// shadow earlier ones with the same key, so the view is a map in which the
/// last occurrence of a key wins.
pub open spec fn opts_map_of(s: Seq<OptView>) -> Map<OptKey, OptView>
    decreases s.len(),
{
    if s.len() == 0 {
        Map::empty()
    } else {
        opts_map_of(s.drop_last()).insert(spec_opt_key(s.last()), s.last())
    }
}

/// A collection of formatting options, keyed by the option kind; within one
/// collection the last entry stored under a key is the one that counts.
#[derive(Debug)]
pub struct Options(pub Vec<Opt>);

impl View for Options {
    type V = Map<OptKey, OptView>;

    open spec fn view(&self) -> Map<OptKey, OptView> {
        opts_map_of(self.0.deep_view())
    }
}

impl DeepView for Options {
    type V = Map<OptKey, OptView>;

    open spec fn deep_view(&self) -> Map<OptKey, OptView> {
        self.view()
    }
}

impl Default for Options {
    /// The empty option set.
    fn default() -> (r: Options)
        ensures
            r@ == Map::<OptKey, OptView>::empty(),
    {
        let r = Options(Vec::new());
        proof {
            assert(r.0.deep_view() =~= Seq::<OptView>::empty());
        }
        r
    }
}

impl Options {
    /// The empty option set.
    pub fn new() -> (r: Options)
        ensures
            r@ == Map::<OptKey, OptView>::empty(),
    {
        let r = Options(Vec::new());
        proof {
            assert(r.0.deep_view() =~= Seq::<OptView>::empty());
        }
        r
    }

    /// Stores an option under its own key; an earlier value under the same
    /// key no longer counts.
    pub fn insert(&mut self, o: Opt)
        ensures
            final(self)@ == old(self)@.insert(spec_opt_key(o@), o@),
    {
        let ghost before = self.0.deep_view();
        let ghost ov = o@;
        self.0.push(o);
        proof {
            assert(self.0.deep_view() =~= before.push(ov));
            assert(self.0.deep_view().drop_last() =~= before);
        }
    }

    /// The number of entries stored (shadowed entries included).
    pub fn entry_count(&self) -> (r: usize)
        ensures
            r == self.0@.len(),
    {
        self.0.len()
    }

    /// Looks an option up by the textual name of its key: the value stored
    /// last under that key, or nothing if the name is unrecognized or the
    /// key is absent.
    pub fn get(&self, name: &str) -> (r: Option<&Opt>)
        ensures
            match spec_key_of_name(name@) {
                Some(k) => match r {
                    Some(o) => self@.contains_key(k) && o@ == self@[k],
                    None => !self@.contains_key(k),
                },
                None => r is None,
            },
    {
        match key_of_name(name) {
            Some(k) => self.get_by_key(k),
            None => None,
        }
    }

    /// Looks an option up by its key: the value stored last under that key,
    /// if any.
    pub fn get_by_key(&self, k: OptKey) -> (r: Option<&Opt>)
        ensures
            match r {
                Some(o) => self@.contains_key(k) && o@ == self@[k],
                None => !self@.contains_key(k),
            },
    {
        let n = self.0.len();
        proof {
            assert(self.0.deep_view().take(n as int) =~= self.0.deep_view());
        }
        self.get_from(k, n)
    }

    fn get_from(&self, k: OptKey, j: usize) -> (r: Option<&Opt>)
        requires
            j <= self.0@.len(),
        ensures
            ({
                let m = opts_map_of(self.0.deep_view().take(j as int));
                match r {
                    Some(o) => m.contains_key(k) && o@ == m[k],
                    None => !m.contains_key(k),
                }
            }),
        decreases j,
    {
        proof {
            if j > 0 {
                assert(self.0.deep_view().take(j as int).drop_last() =~= self.0.deep_view().take(
                    j as int - 1,
                ));
                assert(self.0.deep_view().take(j as int).last() == self.0[j as int - 1].deep_view());
            } else {
                assert(self.0.deep_view().take(0) =~= Seq::<OptView>::empty());
            }
        }
        if j > 0 {
            let o = &self.0[j - 1];
            if o.key() == k {
                Some(o)
            } else {
                self.get_from(k, j - 1)
            }
        } else {
            None
        }
    }
}

fn opt_eq(a: &Opt, b: &Opt) -> (r: bool)
    ensures
        r == (a@ == b@),
{
    match (a, b) {
        (Opt::Label(x), Opt::Label(y)) => str_eq(x.as_str(), y.as_str()),
        (Opt::BgColor(x), Opt::BgColor(y)) => str_eq(x.as_str(), y.as_str()),
        (Opt::Color(x), Opt::Color(y)) => str_eq(x.as_str(), y.as_str()),
        (Opt::FontFace(x), Opt::FontFace(y)) => str_eq(x.as_str(), y.as_str()),
        (Opt::FontSize(x), Opt::FontSize(y)) => str_eq(x.as_str(), y.as_str()),
        (Opt::BorderColor(x), Opt::BorderColor(y)) => str_eq(x.as_str(), y.as_str()),
        (Opt::TextAlignment(x), Opt::TextAlignment(y)) => str_eq(x.as_str(), y.as_str()),
        (Opt::Border(x), Opt::Border(y)) => *x == *y,
        (Opt::CellSpacing(x), Opt::CellSpacing(y)) => *x == *y,
        (Opt::CellBorder(x), Opt::CellBorder(y)) => *x == *y,
        (Opt::CellPadding(x), Opt::CellPadding(y)) => *x == *y,
        _ => false,
    }
}

/// A key is in an option map exactly when some entry of the list carries it.
proof fn lemma_opts_map_dom(s: Seq<OptView>)
    ensures
        forall|k: OptKey| #[trigger]
            opts_map_of(s).contains_key(k) <==> (exists|j: int|
                0 <= j < s.len() && spec_opt_key(#[trigger] s[j]) == k),
    decreases s.len(),
{
    if s.len() > 0 {
        let d = s.drop_last();
        let kl = spec_opt_key(s.last());
        lemma_opts_map_dom(d);
        assert forall|k: OptKey| #[trigger]
            opts_map_of(s).contains_key(k) implies (exists|j: int|
            0 <= j < s.len() && spec_opt_key(#[trigger] s[j]) == k) by {
            if k == kl {
                assert(spec_opt_key(s[s.len() - 1]) == k);
            } else {
                assert(opts_map_of(d).contains_key(k));
                let j = choose|j: int| 0 <= j < d.len() && spec_opt_key(#[trigger] d[j]) == k;
                assert(d[j] == s[j]);
                assert(spec_opt_key(s[j]) == k);
            }
        }
        assert forall|k: OptKey|
            (exists|j: int|
                0 <= j < s.len() && spec_opt_key(#[trigger] s[j]) == k) implies #[trigger]
            opts_map_of(s).contains_key(k) by {
            let j = choose|j: int| 0 <= j < s.len() && spec_opt_key(#[trigger] s[j]) == k;
            if j == s.len() - 1 {
                assert(k == kl);
            } else {
                assert(d[j] == s[j]);
                assert(spec_opt_key(d[j]) == k);
                assert(exists|jj: int| 0 <= jj < d.len() && spec_opt_key(#[trigger] d[jj]) == k);
                assert(opts_map_of(d).contains_key(k));
            }
        }
    }
}

fn opts_submap(a: &Options, b: &Options, j: usize) -> (r: bool)
    requires
        j <= a.0@.len(),
    ensures
        r == (forall|jj: int|
            j <= jj < a.0@.len() ==> {
                let k = spec_opt_key(#[trigger] a.0.deep_view()[jj]);
                b@.contains_key(k) && b@[k] == a@[k]
            }),
    decreases a.0@.len() - j,
{
    if j < a.0.len() {
        let k = a.0[j].key();
        proof {
            lemma_opts_map_dom(a.0.deep_view());
            assert(spec_opt_key(a.0.deep_view()[j as int]) == k);
        }
        let av = a.get_by_key(k);
        let bv = b.get_by_key(k);
        match (av, bv) {
            (Some(x), Some(y)) => if opt_eq(x, y) {
                opts_submap(a, b, j + 1)
            } else {
                false
            },
            (None, _) => {
                proof {
                    assert(false);
                }
                false
            },
            (_, None) => false,
        }
    } else {
        true
    }
}

impl PartialEq for Options {
    /// Two option sets are equal when they hold the same keys with the
    /// same values; the order in which entries were stored, and entries
    /// shadowed by a later one under the same key, do not count.
    fn eq(&self, other: &Options) -> (r: bool) {
        let ab = opts_submap(self, other, 0);
        let ba = opts_submap(other, self, 0);
        let r = ab && ba;
        proof {
            lemma_opts_map_dom(self.0.deep_view());
            lemma_opts_map_dom(other.0.deep_view());
            if ab && ba {
                assert forall|k: OptKey| #[trigger]
                    self@.contains_key(k) implies other@.contains_key(k) && other@[k]
                    == self@[k] by {
                    let jj = choose|jj: int|
                        0 <= jj < self.0.deep_view().len() && spec_opt_key(
                            #[trigger] self.0.deep_view()[jj],
                        ) == k;
                    assert(spec_opt_key(self.0.deep_view()[jj]) == k);
                }
                assert forall|k: OptKey| #[trigger]
                    other@.contains_key(k) implies self@.contains_key(k) by {
                    let jj = choose|jj: int|
                        0 <= jj < other.0.deep_view().len() && spec_opt_key(
                            #[trigger] other.0.deep_view()[jj],
                        ) == k;
                    assert(spec_opt_key(other.0.deep_view()[jj]) == k);
                }
                assert(self@ =~= other@);
            } else if self@ == other@ {
                assert forall|jj: int|
                    0 <= jj < self.0.deep_view().len() implies {
                        let k = spec_opt_key(#[trigger] self.0.deep_view()[jj]);
                        other@.contains_key(k) && other@[k] == self@[k]
                    } by {
                    let k = spec_opt_key(self.0.deep_view()[jj]);
                    assert(self@.contains_key(k));
                }
                assert forall|jj: int|
                    0 <= jj < other.0.deep_view().len() implies {
                        let k = spec_opt_key(#[trigger] other.0.deep_view()[jj]);
                        self@.contains_key(k) && self@[k] == other@[k]
                    } by {
                    let k = spec_opt_key(other.0.deep_view()[jj]);
                    assert(other@.contains_key(k));
                }
                assert(ab && ba);
            }
        }
        r
    }
}

impl Eq for Options {

}

impl vstd::std_specs::cmp::PartialEqSpecImpl for Options {
    open spec fn obeys_eq_spec() -> bool {
        true
    }

    open spec fn eq_spec(&self, other: &Options) -> bool {
        self@ == other@
    }
}

fn push_all_opts(dst: &mut Options, src: &Options, j: usize)
    requires
        j <= src.0@.len(),
    ensures
        final(dst)@ == old(dst)@.union_prefer_right(
            opts_map_of(src.0.deep_view().skip(j as int)),
        ),
    decreases src.0@.len() - j,
{
    if j < src.0.len() {
        let o = clone_opt(&src.0[j]);
        dst.insert(o);
        push_all_opts(dst, src, j + 1);
        proof {
            lemma_opts_map_cons(src.0.deep_view().skip(j as int));
            assert(src.0.deep_view().skip(j as int).skip(1) =~= src.0.deep_view().skip(
                j as int + 1,
            ));
            assert(src.0.deep_view().skip(j as int)[0] == src.0[j as int].deep_view());
            assert(final(dst)@ =~= old(dst)@.union_prefer_right(
                opts_map_of(src.0.deep_view().skip(j as int)),
            ));
        }
    } else {
        proof {
            assert(src.0.deep_view().skip(j as int) =~= Seq::<OptView>::empty());
            assert(final(dst)@ =~= old(dst)@.union_prefer_right(
                opts_map_of(src.0.deep_view().skip(j as int)),
            ));
        }
    }
}

/// The map of a non-empty entry list equals the map of its tail overlaid on
/// its first entry.
proof fn lemma_opts_map_cons(t: Seq<OptView>)
    requires
        t.len() > 0,
    ensures
        opts_map_of(t) == Map::empty().insert(spec_opt_key(t[0]), t[0]).union_prefer_right(
            opts_map_of(t.skip(1)),
        ),
    decreases t.len(),
{
    let sing = Map::empty().insert(spec_opt_key(t[0]), t[0]);
    if t.len() == 1 {
        assert(t.drop_last() =~= Seq::<OptView>::empty());
        assert(t.skip(1) =~= Seq::<OptView>::empty());
        assert(opts_map_of(t) =~= sing.union_prefer_right(opts_map_of(t.skip(1))));
    } else {
        let d = t.drop_last();
        lemma_opts_map_cons(d);
        assert(d[0] == t[0]);
        assert(d.skip(1) =~= t.skip(1).drop_last());
        assert(t.skip(1).last() == t.last());
        assert(opts_map_of(t) =~= sing.union_prefer_right(opts_map_of(t.skip(1))));
    }
}

fn clone_opt(o: &Opt) -> (r: Opt)
    ensures
        r@ == o@,
{
    match o {
        Opt::Label(s) => Opt::Label(s.clone()),
        Opt::BgColor(s) => Opt::BgColor(s.clone()),
        Opt::Color(s) => Opt::Color(s.clone()),
        Opt::FontFace(s) => Opt::FontFace(s.clone()),
        Opt::FontSize(s) => Opt::FontSize(s.clone()),
        Opt::Border(n) => Opt::Border(*n),
        Opt::BorderColor(s) => Opt::BorderColor(s.clone()),
        Opt::CellSpacing(n) => Opt::CellSpacing(*n),
        Opt::CellBorder(n) => Opt::CellBorder(*n),
        Opt::CellPadding(n) => Opt::CellPadding(*n),
        Opt::TextAlignment(s) => Opt::TextAlignment(s.clone()),
    }
}

/// Copies an option set entry for entry.
pub fn clone_opts(src: &Options) -> (r: Options)
    ensures
        r@ == src@,
{
    let mut r = Options::new();
    push_all_opts(&mut r, src, 0);
    proof {
        assert(src.0.deep_view().skip(0) =~= src.0.deep_view());
        assert(r@ =~= src@);
    }
    r
}

/// Merges two option sets: every entry of `b` is kept unless `a` holds the
/// same key, in which case `a`'s value takes precedence.
pub fn merge_opts(a: &Options, b: &Options) -> (r: Options)
    ensures
        r@ == b@.union_prefer_right(a@),
{
    let mut r = clone_opts(b);
    push_all_opts(&mut r, a, 0);
    proof {
        assert(a.0.deep_view().skip(0) =~= a.0.deep_view());
    }
    r
}

// ---------------------------------------------------------------------------
// Selecting option subsets
// ---------------------------------------------------------------------------

/// Names one of the three standard option subsets: the font-affecting
/// options, the HTML-table-affecting options, and the label.
#[derive(Clone, Copy, Debug, PartialEq, Eq, Structural)]
pub enum Selector {
    Font,
    Html,
    Label,
}

/// Whether an option belongs to the font-affecting subset.
pub open spec fn spec_is_font_opt(o: OptView) -> bool {
    o is Color || o is FontFace || o is FontSize
}

/// Whether an option belongs to the HTML-table-affecting subset.
pub open spec fn spec_is_html_opt(o: OptView) -> bool {
    ||| o is BgColor
    ||| o is Border
    ||| o is BorderColor
    ||| o is CellBorder
    ||| o is CellPadding
    ||| o is CellSpacing
    ||| o is TextAlignment
}

/// Whether an option is the label.
pub open spec fn spec_is_label_opt(o: OptView) -> bool {
    o is Label
}

/// Whether an option belongs to the subset a selector names.
pub open spec fn spec_selected(sel: Selector, o: OptView) -> bool {
    match sel {
        Selector::Font => spec_is_font_opt(o),
        Selector::Html => spec_is_html_opt(o),
        Selector::Label => spec_is_label_opt(o),
    }
}

/// Selects an option if and only if it corresponds to a font attribute.
pub fn opt_to_font<'a>(opt: &'a Opt) -> (r: Option<&'a Opt>)
    ensures
        match r {
            Some(o) => spec_is_font_opt(opt@) && o@ == opt@,
            None => !spec_is_font_opt(opt@),
        },
{
    match opt {
        Opt::Color(_) | Opt::FontFace(_) | Opt::FontSize(_) => Some(opt),
        _ => None,
    }
}

/// Selects an option if and only if it corresponds to an HTML attribute,
/// in particular for tables or table cells.
pub fn opt_to_html<'a>(opt: &'a Opt) -> (r: Option<&'a Opt>)
    ensures
        match r {
            Some(o) => spec_is_html_opt(opt@) && o@ == opt@,
            None => !spec_is_html_opt(opt@),
        },
{
    match opt {
        Opt::BgColor(_) | Opt::Border(_) | Opt::BorderColor(_) | Opt::CellBorder(_)
            | Opt::CellPadding(_) | Opt::CellSpacing(_) | Opt::TextAlignment(_) => Some(opt),
        _ => None,
    }
}

/// Selects an option if and only if it is the label.
pub fn opt_to_label<'a>(opt: &'a Opt) -> (r: Option<&'a Opt>)
    ensures
        match r {
            Some(o) => spec_is_label_opt(opt@) && o@ == opt@,
            None => !spec_is_label_opt(opt@),
        },
{
    match opt {
        Opt::Label(_) => Some(opt),
        _ => None,
    }
}

/// The subset of an option map whose values a selector picks.
pub open spec fn spec_select_opts(sel: Selector, m: Map<OptKey, OptView>) -> Map<OptKey, OptView> {
    m.restrict(m.dom().filter(|k: OptKey| spec_selected(sel, m[k])))
}

/// The entries of an entry list whose values a selector picks, in order.
pub open spec fn spec_filter_opts(sel: Selector, s: Seq<OptView>) -> Seq<OptView>
    decreases s.len(),
{
    if s.len() == 0 {
        Seq::empty()
    } else if spec_selected(sel, s.last()) {
        spec_filter_opts(sel, s.drop_last()).push(s.last())
    } else {
        spec_filter_opts(sel, s.drop_last())
    }
}

/// Every value of an option map is stored under its own key.
proof fn lemma_opts_map_key(s: Seq<OptView>)
    ensures
        forall|k: OptKey| #[trigger]
            opts_map_of(s).contains_key(k) ==> spec_opt_key(opts_map_of(s)[k]) == k,
    decreases s.len(),
{
    if s.len() > 0 {
        lemma_opts_map_key(s.drop_last());
    }
}

/// Filtering the entry list and filtering the option map agree.
proof fn lemma_filter_opts_map(sel: Selector, s: Seq<OptView>)
    ensures
        opts_map_of(spec_filter_opts(sel, s)) == spec_select_opts(sel, opts_map_of(s)),
    decreases s.len(),
{
    if s.len() == 0 {
        assert(opts_map_of(spec_filter_opts(sel, s)) =~= spec_select_opts(sel, opts_map_of(s)));
    } else {
        let d = s.drop_last();
        let l = s.last();
        let k = spec_opt_key(l);
        lemma_filter_opts_map(sel, d);
        lemma_opts_map_key(d);
        if spec_selected(sel, l) {
            assert(spec_filter_opts(sel, s).drop_last() =~= spec_filter_opts(sel, d));
            assert(opts_map_of(spec_filter_opts(sel, s)) =~= spec_select_opts(
                sel,
                opts_map_of(s),
            ));
        } else {
            assert(opts_map_of(spec_filter_opts(sel, s)) =~= spec_select_opts(
                sel,
                opts_map_of(s),
            ));
        }
    }
}

fn opt_selected(sel: Selector, o: &Opt) -> (r: bool)
    ensures
        r == spec_selected(sel, o@),
{
    match sel {
        Selector::Font => opt_to_font(o).is_some(),
        Selector::Html => opt_to_html(o).is_some(),
        Selector::Label => opt_to_label(o).is_some(),
    }
}

fn select_prefix(sel: Selector, src: &Options, j: usize) -> (r: Options)
    requires
        j <= src.0@.len(),
    ensures
        r.0.deep_view() == spec_filter_opts(sel, src.0.deep_view().take(j as int)),
    decreases j,
{
    if j == 0 {
        let r = Options(Vec::new());
        proof {
            assert(r.0.deep_view() =~= Seq::<OptView>::empty());
            assert(src.0.deep_view().take(0) =~= Seq::<OptView>::empty());
        }
        r
    } else {
        let mut r = select_prefix(sel, src, j - 1);
        let o = &src.0[j - 1];
        let ghost before = r.0.deep_view();
        proof {
            assert(src.0.deep_view().take(j as int).drop_last() =~= src.0.deep_view().take(
                j as int - 1,
            ));
            assert(src.0.deep_view().take(j as int).last() == o.deep_view());
        }
        if opt_selected(sel, o) {
            r.0.push(clone_opt(o));
            proof {
                assert(r.0.deep_view() =~= before.push(o.deep_view()));
            }
        }
        r
    }
}

/// Given a set of options and a selector, returns the subset holding only
/// those options the selector picks.
pub fn options_to(selector: Selector, options: &Options) -> (r: Options)
    ensures
        r@ == spec_select_opts(selector, options@),
{
    let n = options.0.len();
    let r = select_prefix(selector, options, n);
    proof {
        assert(options.0.deep_view().take(n as int) =~= options.0.deep_view());
        lemma_filter_opts_map(selector, options.0.deep_view());
    }
    r
}

// ---------------------------------------------------------------------------
// Hard-coded default option sets
// ---------------------------------------------------------------------------

/// Hard-coded default options for all graph titles: font size 30.
pub fn default_title_opts() -> (r: Options)
    ensures
        r@ == Map::<OptKey, OptView>::empty().insert(
            OptKey::FontSize,
            OptView::FontSize("30"@),
        ),
{
    let mut r = Options::new();
    r.insert(Opt::FontSize(String::from_str("30")));
    r
}

/// Hard-coded default options for all entity headers: font size 16.
pub fn default_header_opts() -> (r: Options)
    ensures
        r@ == Map::<OptKey, OptView>::empty().insert(
            OptKey::FontSize,
            OptView::FontSize("16"@),
        ),
{
    let mut r = Options::new();
    r.insert(Opt::FontSize(String::from_str("16")));
    r
}

/// Hard-coded default options for all entities: no outer border, one-pixel
/// cell borders, no cell spacing, four pixels of cell padding, and the
/// Helvetica font.
pub fn default_entity_opts() -> (r: Options)
    ensures
        r@ == Map::<OptKey, OptView>::empty().insert(OptKey::Border, OptView::Border(0)).insert(
            OptKey::CellBorder,
            OptView::CellBorder(1),
        ).insert(OptKey::CellSpacing, OptView::CellSpacing(0)).insert(
            OptKey::CellPadding,
            OptView::CellPadding(4),
        ).insert(OptKey::FontFace, OptView::FontFace("Helvetica"@)),
{
    let mut r = Options::new();
    r.insert(Opt::Border(0));
    r.insert(Opt::CellBorder(1));
    r.insert(Opt::CellSpacing(0));
    r.insert(Opt::CellPadding(4));
    r.insert(Opt::FontFace(String::from_str("Helvetica")));
    r
}

/// Hard-coded default options for all relationships: none.
pub fn default_rel_opts() -> (r: Options)
    ensures
        r@ == Map::<OptKey, OptView>::empty(),
{
    Options::new()
}

/// Hard-coded default options for all attributes: left-aligned text.
pub fn default_attr_opts() -> (r: Options)
    ensures
        r@ == Map::<OptKey, OptView>::empty().insert(
            OptKey::TextAlignment,
            OptView::TextAlignment("LEFT"@),
        ),
{
    let mut r = Options::new();
    r.insert(Opt::TextAlignment(String::from_str("LEFT")));
    r
}

// ---------------------------------------------------------------------------
// The diagram model
// ---------------------------------------------------------------------------

/// An attribute on a particular entity: a field name, a primary-key flag,
/// a foreign-key flag, and its own option set.
#[derive(Debug, PartialEq)]
pub struct Attribute {
    pub field: String,
    pub pk: bool,
    pub fk: bool,
    pub options: Options,
}

/// The mathematical shape of an [`Attribute`].
pub struct AttributeView {
    pub field: Seq<char>,
    pub pk: bool,
    pub fk: bool,
    pub options: Map<OptKey, OptView>,
}

impl View for Attribute {
    type V = AttributeView;

    open spec fn view(&self) -> AttributeView {
        AttributeView { field: self.field@, pk: self.pk, fk: self.fk, options: self.options@ }
    }
}

impl DeepView for Attribute {
    type V = AttributeView;

    open spec fn deep_view(&self) -> AttributeView {
        self.view()
    }
}

/// A single entity in a schema: a name (not required to be unique), its
/// attributes in declaration order, header-level options and body-level
/// options.
#[derive(Debug, PartialEq)]
pub struct Entity {
    pub name: String,
    pub attribs: Vec<Attribute>,
    /// Formatting options for the header.
    pub hoptions: Options,
    /// Formatting options for the entity body.
    pub eoptions: Options,
}

/// The mathematical shape of an [`Entity`].
pub struct EntityView {
    pub name: Seq<char>,
    pub attribs: Seq<AttributeView>,
    pub hoptions: Map<OptKey, OptView>,
    pub eoptions: Map<OptKey, OptView>,
}

impl View for Entity {
    type V = EntityView;

    open spec fn view(&self) -> EntityView {
        EntityView {
            name: self.name@,
            attribs: self.attribs.deep_view(),
            hoptions: self.hoptions@,
            eoptions: self.eoptions@,
        }
    }
}

impl DeepView for Entity {
    type V = EntityView;

    open spec fn deep_view(&self) -> EntityView {
        self.view()
    }
}

/// A cardinality-annotated connection between two entities, linked by name
/// only: a relation may name an entity that does not exist.
#[derive(Debug, PartialEq)]
pub struct Relation {
    pub entity1: String,
    pub entity2: String,
    pub card1: Cardinality,
    pub card2: Cardinality,
    pub options: Options,
}

/// The mathematical shape of a [`Relation`].
pub struct RelationView {
    pub entity1: Seq<char>,
    pub entity2: Seq<char>,
    pub card1: Cardinality,
    pub card2: Cardinality,
    pub options: Map<OptKey, OptView>,
}

impl View for Relation {
    type V = RelationView;

    open spec fn view(&self) -> RelationView {
        RelationView {
            entity1: self.entity1@,
            entity2: self.entity2@,
            card1: self.card1,
            card2: self.card2,
            options: self.options@,
        }
    }
}

impl DeepView for Relation {
    type V = RelationView;

    open spec fn deep_view(&self) -> RelationView {
        self.view()
    }
}

/// The global default option sets, one per directive kind. Formatting
/// options specified in the head of a file land here and provide a
/// fallback for the matching object kind when rendering.
#[derive(Debug, PartialEq)]
pub struct GlobalOptions {
    pub title: Options,
    pub header: Options,
    pub entity: Options,
    pub relationship: Options,
}

/// The mathematical shape of a [`GlobalOptions`].
pub struct GlobalOptionsView {
    pub title: Map<OptKey, OptView>,
    pub header: Map<OptKey, OptView>,
    pub entity: Map<OptKey, OptView>,
    pub relationship: Map<OptKey, OptView>,
}

impl View for GlobalOptions {
    type V = GlobalOptionsView;

    open spec fn view(&self) -> GlobalOptionsView {
        GlobalOptionsView {
            title: self.title@,
            header: self.header@,
            entity: self.entity@,
            relationship: self.relationship@,
        }
    }
}

/// The empty global options.
pub open spec fn spec_global_options_empty() -> GlobalOptionsView {
    GlobalOptionsView {
        title: Map::empty(),
        header: Map::empty(),
        entity: Map::empty(),
        relationship: Map::empty(),
    }
}

impl Default for GlobalOptions {
    /// Global options with every slot empty.
    fn default() -> (r: GlobalOptions)
        ensures
            r@ == spec_global_options_empty(),
    {
        GlobalOptions {
            title: Options::new(),
            header: Options::new(),
            entity: Options::new(),
            relationship: Options::new(),
        }
    }
}

/// A single schema: global default option sets, the entities and relations
/// in declaration order, and the title's own option overrides.
#[derive(Debug, PartialEq)]
pub struct ER {
    pub global_opts: GlobalOptions,
    pub entities: Vec<Entity>,
    pub rels: Vec<Relation>,
    pub title: Options,
}

/// The mathematical shape of an [`ER`].
pub struct ErView {
    pub global_opts: GlobalOptionsView,
    pub entities: Seq<EntityView>,
    pub rels: Seq<RelationView>,
    pub title: Map<OptKey, OptView>,
}

impl View for ER {
    type V = ErView;

    open spec fn view(&self) -> ErView {
        ErView {
            global_opts: self.global_opts@,
            entities: self.entities.deep_view(),
            rels: self.rels.deep_view(),
            title: self.title@,
        }
    }
}

/// The empty schema.
pub open spec fn spec_er_empty() -> ErView {
    ErView {
        global_opts: spec_global_options_empty(),
        entities: Seq::empty(),
        rels: Seq::empty(),
        title: Map::empty(),
    }
}

impl Default for ER {
    /// A schema with nothing in it.
    fn default() -> (r: ER)
        ensures
            r@ == spec_er_empty(),
    {
        let r = ER {
            global_opts: GlobalOptions::default(),
            entities: Vec::new(),
            rels: Vec::new(),
            title: Options::new(),
        };
        proof {
            assert(r.entities.deep_view() =~= Seq::<EntityView>::empty());
            assert(r.rels.deep_view() =~= Seq::<RelationView>::empty());
        }
        r
    }
}

// ---------------------------------------------------------------------------
// The assembler: from parse tree to diagram model
// ---------------------------------------------------------------------------

/// Folds the pairs of an option block into an option map, left to right,
/// so that the last occurrence of a key wins; the first ill-formed pair
/// aborts the fold with its error.
pub open spec fn spec_build_options(
    pairs: Seq<crate::parser::OptPairView>,
    k: int,
    acc: Map<OptKey, OptView>,
) -> Result<Map<OptKey, OptView>, crate::errors::ErrorView>
    decreases pairs.len() - k,
{
    if k < 0 || k >= pairs.len() {
        Ok(acc)
    } else {
        match spec_option_by_name(pairs[k].key, pairs[k].value) {
            Ok(o) => spec_build_options(pairs, k + 1, acc.insert(spec_opt_key(o), o)),
            Err(e) => Err(e),
        }
    }
}

/// The option map of an optional option block: empty when absent.
pub open spec fn spec_opts_of(opts: Option<Seq<crate::parser::OptPairView>>) -> Result<
    Map<OptKey, OptView>,
    crate::errors::ErrorView,
> {
    match opts {
        Some(ps) => spec_build_options(ps, 0, Map::empty()),
        None => Ok(Map::empty()),
    }
}

/// Folds the head's directives into the global default option slots: a
/// directive with an option block fills the slot its keyword names, and
/// one without is a no-op.
pub open spec fn spec_build_head(
    dirs: Seq<crate::parser::DirectiveView>,
    k: int,
    g: GlobalOptionsView,
) -> Result<GlobalOptionsView, crate::errors::ErrorView>
    decreases dirs.len() - k,
{
    if k < 0 || k >= dirs.len() {
        Ok(g)
    } else {
        match dirs[k].opts {
            Some(ps) => match spec_build_options(ps, 0, Map::empty()) {
                Ok(m) => {
                    let g2 = match dirs[k].kind {
                        crate::parser::DirectiveKind::Title => GlobalOptionsView {
                            title: m,
                            header: g.header,
                            entity: g.entity,
                            relationship: g.relationship,
                        },
                        crate::parser::DirectiveKind::Header => GlobalOptionsView {
                            title: g.title,
                            header: m,
                            entity: g.entity,
                            relationship: g.relationship,
                        },
                        crate::parser::DirectiveKind::Entity => GlobalOptionsView {
                            title: g.title,
                            header: g.header,
                            entity: m,
                            relationship: g.relationship,
                        },
                        crate::parser::DirectiveKind::Relationship => GlobalOptionsView {
                            title: g.title,
                            header: g.header,
                            entity: g.entity,
                            relationship: m,
                        },
                    };
                    spec_build_head(dirs, k + 1, g2)
                },
                Err(e) => Err(e),
            },
            None => spec_build_head(dirs, k + 1, g),
        }
    }
}

/// Builds one attribute from its line node: the field name as written,
/// the key-marker flags, and its own option set.
pub open spec fn spec_build_attribute(a: crate::parser::AttrNodeView) -> Result<
    AttributeView,
    crate::errors::ErrorView,
> {
    match spec_opts_of(a.opts) {
        Ok(m) => Ok(AttributeView { field: a.name, pk: a.pk, fk: a.fk, options: m }),
        Err(e) => Err(e),
    }
}

/// Builds the attributes of an entity block, in declaration order.
pub open spec fn spec_build_attributes(xs: Seq<crate::parser::AttrNodeView>, k: int) -> Result<
    Seq<AttributeView>,
    crate::errors::ErrorView,
>
    decreases xs.len() - k,
{
    if k < 0 || k >= xs.len() {
        Ok(Seq::empty())
    } else {
        match spec_build_attribute(xs[k]) {
            Ok(a) => match spec_build_attributes(xs, k + 1) {
                Ok(rest) => Ok(seq![a] + rest),
                Err(e) => Err(e),
            },
            Err(e) => Err(e),
        }
    }
}

/// Builds one entity from its block node: the name with quotes already
/// stripped, its body-level options from the inline block, and its
/// attributes in order. Header-level options are left empty at this
/// stage.
pub open spec fn spec_build_entity(e: crate::parser::EntityNodeView) -> Result<
    EntityView,
    crate::errors::ErrorView,
> {
    match spec_opts_of(e.opts) {
        Ok(m) => match spec_build_attributes(e.attrs, 0) {
            Ok(attrs) => Ok(
                EntityView { name: e.name, attribs: attrs, hoptions: Map::empty(), eoptions: m },
            ),
            Err(e2) => Err(e2),
        },
        Err(e2) => Err(e2),
    }
}

/// Builds one relation from its statement node: the entity names are
/// copied verbatim, with no check that such entities exist. An inline
/// option block is validated, though its values are not yet carried into
/// the relation.
pub open spec fn spec_build_relationship(r: crate::parser::RelNodeView) -> Result<
    RelationView,
    crate::errors::ErrorView,
> {
    match spec_opts_of(r.opts) {
        Ok(_m) => Ok(
            RelationView {
                entity1: r.entity1,
                entity2: r.entity2,
                card1: r.card1,
                card2: r.card2,
                options: Map::empty(),
            },
        ),
        Err(e) => Err(e),
    }
}

/// Builds the body's entities and relations, each list in declaration
/// order.
pub open spec fn spec_build_body(items: Seq<crate::parser::ItemView>, k: int) -> Result<
    (Seq<EntityView>, Seq<RelationView>),
    crate::errors::ErrorView,
>
    decreases items.len() - k,
{
    if k < 0 || k >= items.len() {
        Ok((Seq::empty(), Seq::empty()))
    } else {
        match items[k] {
            crate::parser::ItemView::Entity(e) => match spec_build_entity(e) {
                Ok(ev) => match spec_build_body(items, k + 1) {
                    Ok((es, rs)) => Ok((seq![ev] + es, rs)),
                    Err(e2) => Err(e2),
                },
                Err(e2) => Err(e2),
            },
            crate::parser::ItemView::Rel(r) => match spec_build_relationship(r) {
                Ok(rv) => match spec_build_body(items, k + 1) {
                    Ok((es, rs)) => Ok((es, seq![rv] + rs)),
                    Err(e2) => Err(e2),
                },
                Err(e2) => Err(e2),
            },
        }
    }
}

/// Assembles a diagram model from a parse tree: the head fills the global
/// default option slots, the body yields the entities and relations, and
/// the first error aborts the whole build.
pub open spec fn spec_assemble(d: crate::parser::DocumentView) -> Result<
    ErView,
    crate::errors::ErrorView,
> {
    match spec_build_head(d.head, 0, spec_global_options_empty()) {
        Ok(g) => match spec_build_body(d.items, 0) {
            Ok((es, rs)) => Ok(
                ErView { global_opts: g, entities: es, rels: rs, title: Map::empty() },
            ),
            Err(e) => Err(e),
        },
        Err(e) => Err(e),
    }
}

/// The whole pipeline: grammar engine, assembler. For every input text
/// this is either the diagram model the text describes or the one typed
/// error the parse ends in.
pub open spec fn spec_parse_er(s: Seq<char>) -> Result<ErView, crate::errors::ErrorView> {
    match crate::parser::spec_parse_document(s) {
        Ok(d) => spec_assemble(d),
        Err(e) => Err(e),
    }
}

/// The view of a parse result over diagrams.
pub open spec fn res_er_view(r: Result<ER, crate::errors::Error>) -> Result<
    ErView,
    crate::errors::ErrorView,
> {
    match r {
        Ok(er) => Ok(er@),
        Err(e) => Err(e@),
    }
}

fn build_options(acc: Options, pairs: &Vec<crate::parser::OptPair>, k: usize) -> (r: Result<
    Options,
    crate::errors::Error,
>)
    requires
        k <= pairs@.len(),
    ensures
        match (r, spec_build_options(pairs.deep_view(), k as int, acc@)) {
            (Ok(o), Ok(m)) => o@ == m,
            (Err(e), Err(ev)) => e@ == ev,
            _ => false,
        },
    decreases pairs@.len() - k,
{
    if k < pairs.len() {
        let p = &pairs[k];
        proof {
            assert(pairs.deep_view()[k as int] == p.deep_view());
        }
        match option_by_name(p.key.as_str(), p.value.as_str()) {
            Ok(o) => {
                let mut acc2 = acc;
                acc2.insert(o);
                build_options(acc2, pairs, k + 1)
            },
            Err(e) => Err(e),
        }
    } else {
        Ok(acc)
    }
}

fn opts_of(opts: &Option<Vec<crate::parser::OptPair>>) -> (r: Result<Options, crate::errors::Error>)
    ensures
        match (r, spec_opts_of(opts.deep_view())) {
            (Ok(o), Ok(m)) => o@ == m,
            (Err(e), Err(ev)) => e@ == ev,
            _ => false,
        },
{
    match opts {
        Some(ps) => build_options(Options::new(), ps, 0),
        None => Ok(Options::new()),
    }
}

fn build_head(dirs: &Vec<crate::parser::Directive>, k: usize, g: GlobalOptions) -> (r: Result<
    GlobalOptions,
    crate::errors::Error,
>)
    requires
        k <= dirs@.len(),
    ensures
        match (r, spec_build_head(dirs.deep_view(), k as int, g@)) {
            (Ok(o), Ok(gv)) => o@ == gv,
            (Err(e), Err(ev)) => e@ == ev,
            _ => false,
        },
    decreases dirs@.len() - k,
{
    if k < dirs.len() {
        let d = &dirs[k];
        proof {
            assert(dirs.deep_view()[k as int] == d.deep_view());
        }
        match &d.opts {
            Some(ps) => match build_options(Options::new(), ps, 0) {
                Ok(m) => {
                    let g2 = match d.kind {
                        crate::parser::DirectiveKind::Title => GlobalOptions {
                            title: m,
                            header: g.header,
                            entity: g.entity,
                            relationship: g.relationship,
                        },
                        crate::parser::DirectiveKind::Header => GlobalOptions {
                            title: g.title,
                            header: m,
                            entity: g.entity,
                            relationship: g.relationship,
                        },
                        crate::parser::DirectiveKind::Entity => GlobalOptions {
                            title: g.title,
                            header: g.header,
                            entity: m,
                            relationship: g.relationship,
                        },
                        crate::parser::DirectiveKind::Relationship => GlobalOptions {
                            title: g.title,
                            header: g.header,
                            entity: g.entity,
                            relationship: m,
                        },
                    };
                    build_head(dirs, k + 1, g2)
                },
                Err(e) => Err(e),
            },
            None => build_head(dirs, k + 1, g),
        }
    } else {
        Ok(g)
    }
}

fn build_attribute(a: &crate::parser::AttrNode) -> (r: Result<Attribute, crate::errors::Error>)
    ensures
        match (r, spec_build_attribute(a.deep_view())) {
            (Ok(x), Ok(xv)) => x@ == xv,
            (Err(e), Err(ev)) => e@ == ev,
            _ => false,
        },
{
    match opts_of(&a.opts) {
        Ok(m) => Ok(Attribute { field: a.name.clone(), pk: a.pk, fk: a.fk, options: m }),
        Err(e) => Err(e),
    }
}

fn build_attributes(xs: &Vec<crate::parser::AttrNode>, k: usize) -> (r: Result<
    Vec<Attribute>,
    crate::errors::Error,
>)
    requires
        k <= xs@.len(),
    ensures
        match (r, spec_build_attributes(xs.deep_view(), k as int)) {
            (Ok(v), Ok(vv)) => v.deep_view() == vv,
            (Err(e), Err(ev)) => e@ == ev,
            _ => false,
        },
    decreases xs@.len() - k,
{
    if k < xs.len() {
        let a = &xs[k];
        proof {
            assert(xs.deep_view()[k as int] == a.deep_view());
        }
        match build_attribute(a) {
            Ok(x) => {
                let ghost xv = x.deep_view();
                match build_attributes(xs, k + 1) {
                    Ok(rest) => {
                        let ghost rv = rest.deep_view();
                        let mut v = rest;
                        v.insert(0, x);
                        proof {
                            assert(v.deep_view() =~= seq![xv] + rv);
                        }
                        Ok(v)
                    },
                    Err(e) => Err(e),
                }
            },
            Err(e) => Err(e),
        }
    } else {
        let v: Vec<Attribute> = Vec::new();
        proof {
            assert(v.deep_view() =~= Seq::<AttributeView>::empty());
        }
        Ok(v)
    }
}

fn build_entity(e: &crate::parser::EntityNode) -> (r: Result<Entity, crate::errors::Error>)
    ensures
        match (r, spec_build_entity(e.deep_view())) {
            (Ok(x), Ok(xv)) => x@ == xv,
            (Err(er), Err(ev)) => er@ == ev,
            _ => false,
        },
{
    match opts_of(&e.opts) {
        Ok(m) => match build_attributes(&e.attrs, 0) {
            Ok(attrs) => Ok(
                Entity { name: e.name.clone(), attribs: attrs, hoptions: Options::new(), eoptions: m },
            ),
            Err(e2) => Err(e2),
        },
        Err(e2) => Err(e2),
    }
}

fn build_relationship(x: &crate::parser::RelNode) -> (r: Result<Relation, crate::errors::Error>)
    ensures
        match (r, spec_build_relationship(x.deep_view())) {
            (Ok(y), Ok(yv)) => y@ == yv,
            (Err(e), Err(ev)) => e@ == ev,
            _ => false,
        },
{
    match opts_of(&x.opts) {
        Ok(_m) => Ok(
            Relation {
                entity1: x.entity1.clone(),
                entity2: x.entity2.clone(),
                card1: x.card1,
                card2: x.card2,
                options: Options::new(),
            },
        ),
        Err(e) => Err(e),
    }
}

fn build_body(items: &Vec<crate::parser::Item>, k: usize) -> (r: Result<
    (Vec<Entity>, Vec<Relation>),
    crate::errors::Error,
>)
    requires
        k <= items@.len(),
    ensures
        match (r, spec_build_body(items.deep_view(), k as int)) {
            (Ok((es, rs)), Ok((ev, rv))) => es.deep_view() == ev && rs.deep_view() == rv,
            (Err(e), Err(e2)) => e@ == e2,
            _ => false,
        },
    decreases items@.len() - k,
{
    if k < items.len() {
        let it = &items[k];
        proof {
            assert(items.deep_view()[k as int] == it.deep_view());
        }
        match it {
            crate::parser::Item::Entity(e) => match build_entity(e) {
                Ok(x) => {
                    let ghost xv = x.deep_view();
                    match build_body(items, k + 1) {
                        Ok((es, rs)) => {
                            let ghost esv = es.deep_view();
                            let mut es2 = es;
                            es2.insert(0, x);
                            proof {
                                assert(es2.deep_view() =~= seq![xv] + esv);
                            }
                            Ok((es2, rs))
                        },
                        Err(e2) => Err(e2),
                    }
                },
                Err(e2) => Err(e2),
            },
            crate::parser::Item::Rel(xr) => match build_relationship(xr) {
                Ok(y) => {
                    let ghost yv = y.deep_view();
                    match build_body(items, k + 1) {
                        Ok((es, rs)) => {
                            let ghost rsv = rs.deep_view();
                            let mut rs2 = rs;
                            rs2.insert(0, y);
                            proof {
                                assert(rs2.deep_view() =~= seq![yv] + rsv);
                            }
                            Ok((es, rs2))
                        },
                        Err(e2) => Err(e2),
                    }
                },
                Err(e2) => Err(e2),
            },
        }
    } else {
        let es: Vec<Entity> = Vec::new();
        let rs: Vec<Relation> = Vec::new();
        proof {
            assert(es.deep_view() =~= Seq::<EntityView>::empty());
            assert(rs.deep_view() =~= Seq::<RelationView>::empty());
        }
        Ok((es, rs))
    }
}

/// Parses a plain text into a diagram model: the text is recognised by the
/// grammar engine and the resulting tree is assembled, so that the result
/// is exactly what [`spec_parse_er`] gives for the text, model or error.
pub fn parse(input: &str) -> (r: Result<ER, crate::errors::Error>)
    ensures
        res_er_view(r) == spec_parse_er(input@),
{
    match crate::parser::parse_pairs(input) {
        Ok(doc) => {
            match build_head(&doc.head, 0, GlobalOptions::default()) {
                Ok(g) => match build_body(&doc.items, 0) {
                    Ok((es, rs)) => Ok(
                        ER { global_opts: g, entities: es, rels: rs, title: Options::new() },
                    ),
                    Err(e) => Err(e),
                },
                Err(e) => Err(e),
            }
        },
        Err(e) => Err(e),
    }
}

} // verus!
