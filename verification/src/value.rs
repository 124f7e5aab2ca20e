//! Configuration values and their conversions to and from `bool`, `i32`,
//! `String` and `&str`.
use vstd::prelude::*;
use vstd::std_specs::cmp::PartialEqSpecImpl;

verus! {

/// What a [`ViperusValue`] holds, as a mathematical value.
pub enum ValueView {
    Empty,
    Str(Seq<char>),
    I32(i32),
    Bool(bool),
}

/// ViperusValue encapsulates data values of type String, i32 and bool.
///
/// Conversions to and from the plain types go through [`ConfigValue`] and
/// [`ConfigRef`].
#[derive(Debug, Clone)]
pub enum ViperusValue {
    Empty,
    Str(String),
    I32(i32),
    BOOL(bool),
}

impl View for ViperusValue {
    type V = ValueView;

    open spec fn view(&self) -> ValueView {
        match self {
            ViperusValue::Empty => ValueView::Empty,
            ViperusValue::Str(s) => ValueView::Str(s@),
            ViperusValue::I32(i) => ValueView::I32(*i),
            ViperusValue::BOOL(b) => ValueView::Bool(*b),
        }
    }
}

impl ViperusValue {
    /// A copy of the value.
    pub fn duplicate(&self) -> (r: ViperusValue)
        ensures
            r@ == self@,
    {
        match self {
            ViperusValue::Empty => ViperusValue::Empty,
            ViperusValue::Str(s) => ViperusValue::Str(s.clone()),
            ViperusValue::I32(i) => ViperusValue::I32(*i),
            ViperusValue::BOOL(b) => ViperusValue::BOOL(*b),
        }
    }
}

impl PartialEq for ViperusValue {
    fn eq(&self, other: &Self) -> (r: bool) {
        match (self, other) {
            (ViperusValue::Empty, ViperusValue::Empty) => true,
            (ViperusValue::Str(a), ViperusValue::Str(b)) => a.eq(b),
            (ViperusValue::I32(a), ViperusValue::I32(b)) => *a == *b,
            (ViperusValue::BOOL(a), ViperusValue::BOOL(b)) => *a == *b,
            _ => false,
        }
    }
}

impl PartialEqSpecImpl for ViperusValue {
    open spec fn obeys_eq_spec() -> bool {
        true
    }

    open spec fn eq_spec(&self, other: &ViperusValue) -> bool {
        self@ == other@
    }
}

impl From<bool> for ViperusValue {
    fn from(src: bool) -> (r: ViperusValue) {
        ViperusValue::BOOL(src)
    }
}

impl vstd::std_specs::convert::FromSpecImpl<bool> for ViperusValue {
    open spec fn obeys_from_spec() -> bool {
        true
    }

    open spec fn from_spec(v: bool) -> ViperusValue {
        ViperusValue::BOOL(v)
    }
}

impl From<i32> for ViperusValue {
    fn from(src: i32) -> (r: ViperusValue) {
        ViperusValue::I32(src)
    }
}

impl vstd::std_specs::convert::FromSpecImpl<i32> for ViperusValue {
    open spec fn obeys_from_spec() -> bool {
        true
    }

    open spec fn from_spec(v: i32) -> ViperusValue {
        ViperusValue::I32(v)
    }
}

impl From<String> for ViperusValue {
    fn from(src: String) -> (r: ViperusValue) {
        ViperusValue::Str(src)
    }
}

impl vstd::std_specs::convert::FromSpecImpl<String> for ViperusValue {
    open spec fn obeys_from_spec() -> bool {
        true
    }

    open spec fn from_spec(v: String) -> ViperusValue {
        ViperusValue::Str(v)
    }
}

impl<'a> From<&'a String> for ViperusValue {
    fn from(src: &'a String) -> (r: ViperusValue) {
        ViperusValue::Str(src.clone())
    }
}

impl<'a> vstd::std_specs::convert::FromSpecImpl<&'a String> for ViperusValue {
    open spec fn obeys_from_spec() -> bool {
        true
    }

    open spec fn from_spec(v: &'a String) -> ViperusValue {
        ViperusValue::Str(*v)
    }
}

impl<'a> From<&'a str> for ViperusValue {
    fn from(src: &'a str) -> (r: ViperusValue)
        ensures
            r@ == ValueView::Str(src@),
    {
        ViperusValue::Str(src.to_owned())
    }
}

/// A `String` made from a `&str` is known only by its view, so the exact
/// value is not claimed here; the `ensures` of `from` gives its view.
impl<'a> vstd::std_specs::convert::FromSpecImpl<&'a str> for ViperusValue {
    open spec fn obeys_from_spec() -> bool {
        false
    }

    open spec fn from_spec(v: &'a str) -> ViperusValue {
        ViperusValue::Empty
    }
}

/// `c` is one of the ASCII digits `0` to `9`.
pub open spec fn is_digit(c: char) -> bool {
    48 <= (c as int) <= 57
}

/// The decimal value of a sequence of digits.
pub open spec fn digits_value(s: Seq<char>) -> int
    decreases s.len(),
{
    if s.len() == 0 {
        0
    } else {
        digits_value(s.drop_last()) * 10 + ((s.last() as int) - 48)
    }
}

/// Every character of `s` is a digit.
pub open spec fn all_digits(s: Seq<char>) -> bool {
    forall|i: int| 0 <= i < s.len() ==> is_digit(s[i])
}

/// What `str::parse::<bool>` accepts: exactly `true` and `false`.
pub open spec fn spec_parse_bool(s: Seq<char>) -> Option<bool> {
    if s == seq!['t', 'r', 'u', 'e'] {
        Some(true)
    } else if s == seq!['f', 'a', 'l', 's', 'e'] {
        Some(false)
    } else {
        None
    }
}

/// What `str::parse::<i32>` accepts: an optional `+` or `-`, then at least
/// one decimal digit and nothing else, of a value in the range of `i32`.
pub open spec fn spec_parse_i32(s: Seq<char>) -> Option<i32> {
    let signed = s.len() > 0 && (s[0] == '-' || s[0] == '+');
    let body = if signed {
        s.drop_first()
    } else {
        s
    };
    let value = if s.len() > 0 && s[0] == '-' {
        -digits_value(body)
    } else {
        digits_value(body)
    };
    if body.len() > 0 && all_digits(body) && i32::MIN <= value <= i32::MAX {
        Some(value as i32)
    } else {
        None
    }
}

proof fn lemma_digits_nonneg(s: Seq<char>)
    requires
        all_digits(s),
    ensures
        digits_value(s) >= 0,
    decreases s.len(),
{
    if s.len() > 0 {
        assert(is_digit(s[s.len() - 1]));
        lemma_digits_nonneg(s.drop_last());
    }
}

/// The value of a digit string is at least the value of any of its prefixes.
proof fn lemma_digits_prefix(s: Seq<char>, k: int)
    requires
        all_digits(s),
        0 <= k <= s.len(),
    ensures
        digits_value(s.take(k)) <= digits_value(s),
    decreases s.len(),
{
    if k < s.len() {
        assert(s.take(k) =~= s.drop_last().take(k));
        lemma_digits_prefix(s.drop_last(), k);
        assert(is_digit(s[s.len() - 1]));
        lemma_digits_nonneg(s.drop_last());
    } else {
        assert(s.take(k) =~= s);
    }
}

/// Parses a `bool` as `str::parse` does.
pub fn parse_bool(s: &str) -> (r: Option<bool>)
    ensures
        r == spec_parse_bool(s@),
{
    let n: usize = s.unicode_len();
    if n == 4 {
        if s.get_char(0) == 't' && s.get_char(1) == 'r' && s.get_char(2) == 'u' && s.get_char(3)
            == 'e' {
            assert(s@ =~= seq!['t', 'r', 'u', 'e']);
            return Some(true);
        }
        assert(s@ != seq!['t', 'r', 'u', 'e']);
    } else if n == 5 {
        if s.get_char(0) == 'f' && s.get_char(1) == 'a' && s.get_char(2) == 'l' && s.get_char(3)
            == 's' && s.get_char(4) == 'e' {
            assert(s@ =~= seq!['f', 'a', 'l', 's', 'e']);
            return Some(false);
        }
        assert(s@ != seq!['f', 'a', 'l', 's', 'e']);
    }
    assert(s@ != seq!['t', 'r', 'u', 'e'] && s@ != seq!['f', 'a', 'l', 's', 'e']);
    None
}

/// Parses an `i32` as `str::parse` does.
pub fn parse_i32(s: &str) -> (r: Option<i32>)
    ensures
        r == spec_parse_i32(s@),
{
    let n: usize = s.unicode_len();
    if n == 0 {
        return None;
    }
    let first: char = s.get_char(0);
    let negative: bool = first == '-';
    let start: usize = if first == '-' || first == '+' {
        1
    } else {
        0
    };
    let ghost body = s@.subrange(start as int, n as int);
    assert(body =~= if start == 1 {
        s@.drop_first()
    } else {
        s@
    });
    if start >= n {
        return None;
    }
    let mut acc: i64 = 0;
    let mut i: usize = start;
    while i < n
        invariant
            n == s@.len(),
            start <= i <= n,
            body == s@.subrange(start as int, n as int),
            n > 0,
            start == 1 <==> (s@[0] == '-' || s@[0] == '+'),
            start <= 1,
            body =~= if start == 1 {
                s@.drop_first()
            } else {
                s@
            },
            all_digits(s@.subrange(start as int, i as int)),
            acc == digits_value(s@.subrange(start as int, i as int)),
            0 <= acc <= 2147483648,
        decreases n - i,
    {
        let c: char = s.get_char(i);
        let code: u32 = c as u32;
        if code < 48 || code > 57 {
            assert(body[i - start] == c);
            assert(!is_digit(body[i - start]));
            return None;
        }
        let ghost prev = s@.subrange(start as int, i as int);
        let ghost next = s@.subrange(start as int, i + 1);
        assert(next.drop_last() =~= prev);
        assert(next.last() == c);
        acc = acc * 10 + (code - 48) as i64;
        i = i + 1;
        if acc > 2147483648 {
            proof {
                if all_digits(body) {
                    assert(body.take(i - start) =~= next);
                    lemma_digits_prefix(body, i - start);
                }
            }
            return None;
        }
    }
    assert(s@.subrange(start as int, n as int) =~= body);
    assert(body.len() > 0 && all_digits(body));
    assert(acc == digits_value(body));
    if negative {
        Some((0 - acc) as i32)
    } else if acc > 2147483647 {
        None
    } else {
        Some(acc as i32)
    }
}

/// A plain type that a configuration value can be stored from and read as:
/// `bool`, `i32` and `String`.
pub trait ConfigValue: Sized + View {
    /// The value stored for `x`.
    spec fn stored(x: Self::V) -> ValueView;

    /// The reading of a stored value; `None` where it is refused.
    spec fn read(v: ValueView) -> Option<Self::V>;

    /// The reading of a text, as `str::parse` gives it.
    spec fn parse(s: Seq<char>) -> Option<Self::V>;

    fn to_value(self) -> (v: ViperusValue)
        ensures
            v@ == Self::stored(self@),
    ;

    fn as_value(&self) -> (v: ViperusValue)
        ensures
            v@ == Self::stored(self@),
    ;

    fn from_value(v: ViperusValue) -> (x: Self)
        requires
            Self::read(v@) is Some,
        ensures
            Self::read(v@) == Some(x@),
    ;

    /// Whether a stored value can be read as `Self`.
    fn readable(v: &ViperusValue) -> (r: bool)
        ensures
            r == Self::read(v@) is Some,
    ;

    fn parse_text(s: &str) -> (x: Option<Self>)
        ensures
            x is Some <==> Self::parse(s@) is Some,
            x matches Some(y) ==> Self::parse(s@) == Some(y@),
    ;

    /// Reading back a stored value gives the value.
    proof fn lemma_read_stored(x: Self::V)
        ensures
            Self::read(Self::stored(x)) == Some(x),
    ;

    /// Reading a stored text is parsing it.
    proof fn lemma_read_text(s: Seq<char>)
        ensures
            Self::read(ValueView::Str(s)) == Self::parse(s),
    ;
}

/// A type that a configuration value can be read as by reference: `bool`,
/// `i32`, `String` and `&str`.
pub trait ConfigRef<'a>: Sized + View {
    /// The reading of a stored value; `None` where it is refused.
    spec fn read_ref(v: ValueView) -> Option<Self::V>;

    fn from_value_ref(v: &'a ViperusValue) -> (x: Self)
        requires
            Self::read_ref(v@) is Some,
        ensures
            Self::read_ref(v@) == Some(x@),
    ;
}

pub open spec fn read_bool(v: ValueView) -> Option<bool> {
    match v {
        ValueView::Bool(b) => Some(b),
        ValueView::Str(s) => spec_parse_bool(s),
        _ => None,
    }
}

pub open spec fn read_i32(v: ValueView) -> Option<i32> {
    match v {
        ValueView::I32(i) => Some(i),
        ValueView::Str(s) => spec_parse_i32(s),
        _ => None,
    }
}

pub open spec fn read_str(v: ValueView) -> Option<Seq<char>> {
    match v {
        ValueView::Str(s) => Some(s),
        _ => None,
    }
}

fn bool_of(v: &ViperusValue) -> (b: bool)
    requires
        read_bool(v@) is Some,
    ensures
        read_bool(v@) == Some(b),
{
    match v {
        ViperusValue::BOOL(b) => *b,
        ViperusValue::Str(s) => {
            let r = parse_bool(s.as_str());
            r.unwrap()
        },
        _ => false,
    }
}

fn i32_of(v: &ViperusValue) -> (i: i32)
    requires
        read_i32(v@) is Some,
    ensures
        read_i32(v@) == Some(i),
{
    match v {
        ViperusValue::I32(i) => *i,
        ViperusValue::Str(s) => {
            let r = parse_i32(s.as_str());
            r.unwrap()
        },
        _ => 0,
    }
}

impl ConfigValue for bool {
    open spec fn stored(x: bool) -> ValueView {
        ValueView::Bool(x)
    }

    open spec fn read(v: ValueView) -> Option<bool> {
        read_bool(v)
    }

    open spec fn parse(s: Seq<char>) -> Option<bool> {
        spec_parse_bool(s)
    }

    fn to_value(self) -> (v: ViperusValue) {
        ViperusValue::BOOL(self)
    }

    fn as_value(&self) -> (v: ViperusValue) {
        ViperusValue::BOOL(*self)
    }

    fn from_value(v: ViperusValue) -> (x: bool) {
        bool_of(&v)
    }

    fn readable(v: &ViperusValue) -> (r: bool) {
        match v {
            ViperusValue::BOOL(_) => true,
            ViperusValue::Str(s) => parse_bool(s.as_str()).is_some(),
            _ => false,
        }
    }

    fn parse_text(s: &str) -> (x: Option<bool>) {
        parse_bool(s)
    }

    proof fn lemma_read_stored(x: bool) {
    }

    proof fn lemma_read_text(s: Seq<char>) {
    }
}

impl ConfigValue for i32 {
    open spec fn stored(x: i32) -> ValueView {
        ValueView::I32(x)
    }

    open spec fn read(v: ValueView) -> Option<i32> {
        read_i32(v)
    }

    open spec fn parse(s: Seq<char>) -> Option<i32> {
        spec_parse_i32(s)
    }

    fn to_value(self) -> (v: ViperusValue) {
        ViperusValue::I32(self)
    }

    fn as_value(&self) -> (v: ViperusValue) {
        ViperusValue::I32(*self)
    }

    fn from_value(v: ViperusValue) -> (x: i32) {
        i32_of(&v)
    }

    fn readable(v: &ViperusValue) -> (r: bool) {
        match v {
            ViperusValue::I32(_) => true,
            ViperusValue::Str(s) => parse_i32(s.as_str()).is_some(),
            _ => false,
        }
    }

    fn parse_text(s: &str) -> (x: Option<i32>) {
        parse_i32(s)
    }

    proof fn lemma_read_stored(x: i32) {
    }

    proof fn lemma_read_text(s: Seq<char>) {
    }
}

impl ConfigValue for String {
    open spec fn stored(x: Seq<char>) -> ValueView {
        ValueView::Str(x)
    }

    open spec fn read(v: ValueView) -> Option<Seq<char>> {
        read_str(v)
    }

    open spec fn parse(s: Seq<char>) -> Option<Seq<char>> {
        Some(s)
    }

    fn to_value(self) -> (v: ViperusValue) {
        ViperusValue::Str(self)
    }

    fn as_value(&self) -> (v: ViperusValue) {
        ViperusValue::Str(self.clone())
    }

    fn from_value(v: ViperusValue) -> (x: String) {
        match v {
            ViperusValue::Str(s) => s,
            _ => String::new(),
        }
    }

    fn readable(v: &ViperusValue) -> (r: bool) {
        match v {
            ViperusValue::Str(_) => true,
            _ => false,
        }
    }

    fn parse_text(s: &str) -> (x: Option<String>) {
        Some(s.to_owned())
    }

    proof fn lemma_read_stored(x: Seq<char>) {
    }

    proof fn lemma_read_text(s: Seq<char>) {
    }
}

impl<'a> ConfigRef<'a> for bool {
    open spec fn read_ref(v: ValueView) -> Option<bool> {
        read_bool(v)
    }

    fn from_value_ref(v: &'a ViperusValue) -> (x: bool) {
        bool_of(v)
    }
}

impl<'a> ConfigRef<'a> for i32 {
    open spec fn read_ref(v: ValueView) -> Option<i32> {
        read_i32(v)
    }

    fn from_value_ref(v: &'a ViperusValue) -> (x: i32) {
        i32_of(v)
    }
}

impl<'a> ConfigRef<'a> for String {
    open spec fn read_ref(v: ValueView) -> Option<Seq<char>> {
        read_str(v)
    }

    fn from_value_ref(v: &'a ViperusValue) -> (x: String) {
        match v {
            ViperusValue::Str(s) => s.clone(),
            _ => String::new(),
        }
    }
}

impl<'a> ConfigRef<'a> for &'a str {
    open spec fn read_ref(v: ValueView) -> Option<Seq<char>> {
        read_str(v)
    }

    fn from_value_ref(v: &'a ViperusValue) -> (x: &'a str) {
        match v {
            ViperusValue::Str(s) => s.as_str(),
            _ => "",
        }
    }
}

} // verus!
