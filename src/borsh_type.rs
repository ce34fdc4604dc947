//! The types that a Borsh schema can describe, and the parser that reads them
//! from stringified Rust type signatures.

use vstd::prelude::*;
use vstd::string::StringExecFns;
use crate::split::{split_pair, split_top_level};
use crate::text::{
    lemma_strip_spaceless, spaceless,
    decimal, parse_length, parse_usize, push_char, push_decimal, slice_chars, spaceless_chars, strip_spaces,
};

verus! {

/// Types that can be represented in a TypeScript borsh schema
/// for (de)serialization.
#[derive(Debug)]
pub enum BorshType {
    U8,
    U16,
    U32,
    U64,
    U128,
    Bool,
    String,
    Pubkey,
    Vec(Box<BorshType>),
    FixedArray(Box<BorshType>, usize),
    FixedBytes(usize),
    Option(Box<BorshType>),
    HashMap(Box<BorshType>, Box<BorshType>),
    Custom(String),
    Skip,
}

/// The mathematical value of a [`BorshType`]: the same shape, with names as
/// character sequences.
pub enum TypeExpr {
    U8,
    U16,
    U32,
    U64,
    U128,
    Bool,
    String,
    Pubkey,
    Vec(Box<TypeExpr>),
    FixedArray(Box<TypeExpr>, nat),
    FixedBytes(nat),
    Option(Box<TypeExpr>),
    HashMap(Box<TypeExpr>, Box<TypeExpr>),
    Custom(Seq<char>),
    Skip,
}

pub open spec fn type_expr(t: BorshType) -> TypeExpr
    decreases t,
{
    match t {
        BorshType::U8 => TypeExpr::U8,
        BorshType::U16 => TypeExpr::U16,
        BorshType::U32 => TypeExpr::U32,
        BorshType::U64 => TypeExpr::U64,
        BorshType::U128 => TypeExpr::U128,
        BorshType::Bool => TypeExpr::Bool,
        BorshType::String => TypeExpr::String,
        BorshType::Pubkey => TypeExpr::Pubkey,
        BorshType::Vec(inner) => TypeExpr::Vec(Box::new(type_expr(*inner))),
        BorshType::FixedArray(inner, n) => TypeExpr::FixedArray(
            Box::new(type_expr(*inner)),
            n as nat,
        ),
        BorshType::FixedBytes(n) => TypeExpr::FixedBytes(n as nat),
        BorshType::Option(inner) => TypeExpr::Option(Box::new(type_expr(*inner))),
        BorshType::HashMap(k, v) => TypeExpr::HashMap(Box::new(type_expr(*k)), Box::new(type_expr(*v))),
        BorshType::Custom(name) => TypeExpr::Custom(name@),
        BorshType::Skip => TypeExpr::Skip,
    }
}

impl View for BorshType {
    type V = TypeExpr;

    open spec fn view(&self) -> TypeExpr {
        type_expr(*self)
    }
}

/// Whether two types have the same structure.
fn same_type(a: &BorshType, b: &BorshType) -> (r: bool)
    ensures
        r == (a@ == b@),
    decreases a,
{
    match (a, b) {
        (BorshType::U8, BorshType::U8) => true,
        (BorshType::U16, BorshType::U16) => true,
        (BorshType::U32, BorshType::U32) => true,
        (BorshType::U64, BorshType::U64) => true,
        (BorshType::U128, BorshType::U128) => true,
        (BorshType::Bool, BorshType::Bool) => true,
        (BorshType::String, BorshType::String) => true,
        (BorshType::Pubkey, BorshType::Pubkey) => true,
        (BorshType::Vec(x), BorshType::Vec(y)) => same_type(x, y),
        (BorshType::FixedArray(x, n), BorshType::FixedArray(y, m)) => *n == *m && same_type(x, y),
        (BorshType::FixedBytes(n), BorshType::FixedBytes(m)) => *n == *m,
        (BorshType::Option(x), BorshType::Option(y)) => same_type(x, y),
        (BorshType::HashMap(k, v), BorshType::HashMap(k2, v2)) => same_type(k, k2) && same_type(
            v,
            v2,
        ),
        (BorshType::Custom(x), BorshType::Custom(y)) => *x == *y,
        (BorshType::Skip, BorshType::Skip) => true,
        _ => false,
    }
}

impl PartialEq for BorshType {
    fn eq(&self, other: &BorshType) -> (r: bool) {
        same_type(self, other)
    }
}

impl vstd::std_specs::cmp::PartialEqSpecImpl for BorshType {
    open spec fn obeys_eq_spec() -> bool {
        true
    }

    open spec fn eq_spec(&self, other: &BorshType) -> bool {
        self@ == other@
    }
}

/// The wrapper whose syntax was malformed.
#[derive(Clone, Copy, Debug, PartialEq, Eq, Structural)]
pub enum Wrapper {
    Option,
    Vec,
    VecDeque,
    BracketArray,
    Array,
    HashMap,
}

/// What was wrong with a wrapper's syntax.
#[derive(Clone, Copy, Debug, PartialEq, Eq, Structural)]
pub enum Fault {
    /// The closing delimiter is missing.
    MissingClose,
    /// An array has no separator between element type and length.
    MissingSeparator,
    /// An array length is not a non-negative integer that fits in `usize`.
    BadLength,
    /// A map does not hold exactly two balanced, non-empty arguments.
    BadArguments,
}

/// A syntax error in a type signature: which wrapper failed, how, and the
/// offending text (the wrapper's text, or the length for `BadLength`).
#[derive(Debug)]
pub struct ParseError {
    pub wrapper: Wrapper,
    pub fault: Fault,
    pub text: String,
}

/// The mathematical value of a [`ParseError`].
pub struct SyntaxError {
    pub wrapper: Wrapper,
    pub fault: Fault,
    pub text: Seq<char>,
}

impl View for ParseError {
    type V = SyntaxError;

    open spec fn view(&self) -> SyntaxError {
        SyntaxError { wrapper: self.wrapper, fault: self.fault, text: self.text@ }
    }
}

pub open spec fn syntax_error(wrapper: Wrapper, fault: Fault, text: Seq<char>) -> SyntaxError {
    SyntaxError { wrapper, fault, text }
}

/// The scalar that an exact type name stands for.
pub open spec fn scalar_of(t: Seq<char>) -> Option<TypeExpr> {
    if t == "u8"@ || t == "i8"@ {
        Some(TypeExpr::U8)
    } else if t == "u16"@ || t == "i16"@ {
        Some(TypeExpr::U16)
    } else if t == "u32"@ || t == "i32"@ {
        Some(TypeExpr::U32)
    } else if t == "u64"@ || t == "i64"@ || t == "UnixTimestamp"@ {
        Some(TypeExpr::U64)
    } else if t == "u128"@ || t == "i128"@ {
        Some(TypeExpr::U128)
    } else if t == "bool"@ {
        Some(TypeExpr::Bool)
    } else if t == "String"@ || t == "string"@ {
        Some(TypeExpr::String)
    } else if t == "Pubkey"@ {
        Some(TypeExpr::Pubkey)
    } else {
        None
    }
}

pub open spec fn has_prefix(t: Seq<char>, p: Seq<char>) -> bool {
    p.len() <= t.len() && t.subrange(0, p.len() as int) == p
}

/// The text between a prefix of length `k` and a final `close`.
pub open spec fn enclosed(t: Seq<char>, k: int, close: char) -> Option<Seq<char>> {
    if 0 <= k < t.len() && t.last() == close {
        Some(t.subrange(k, t.len() - 1))
    } else {
        None
    }
}

/// The position of the last `c` in `s`, or -1.
pub open spec fn last_index_of(s: Seq<char>, c: char) -> int
    decreases s.len(),
{
    if s.len() == 0 {
        -1
    } else if s.last() == c {
        s.len() - 1
    } else {
        last_index_of(s.drop_last(), c)
    }
}

pub proof fn lemma_last_index_bound(s: Seq<char>, c: char)
    ensures
        -1 <= last_index_of(s, c) < s.len(),
        last_index_of(s, c) >= 0 ==> s[last_index_of(s, c)] == c,
    decreases s.len(),
{
    if s.len() > 0 && s.last() != c {
        lemma_last_index_bound(s.drop_last(), c);
    }
}

/// A fixed array of `n` elements of `e`; bytes get their own kind.
pub open spec fn array_expr(e: TypeExpr, n: nat) -> TypeExpr {
    if e == TypeExpr::U8 {
        TypeExpr::FixedBytes(n)
    } else {
        TypeExpr::FixedArray(Box::new(e), n)
    }
}

/// What an array signature gives once its element type is read: the array,
/// or the error on its length text.
pub open spec fn array_result(
    elem: Result<TypeExpr, SyntaxError>,
    len_text: Seq<char>,
    wrapper: Wrapper,
) -> Result<TypeExpr, SyntaxError> {
    match elem {
        Err(x) => Err(x),
        Ok(e) => match parse_usize(len_text) {
            Some(n) => Ok(array_expr(e, n as nat)),
            None => Err(syntax_error(wrapper, Fault::BadLength, len_text)),
        },
    }
}

/// The type that a whitespace-free signature `t` stands for.
pub open spec fn parse_spaceless(t: Seq<char>) -> Result<TypeExpr, SyntaxError>
    decreases t.len(),
{
    if scalar_of(t) is Some {
        Ok(scalar_of(t)->0)
    } else if has_prefix(t, "Option<"@) {
        match enclosed(t, "Option<"@.len() as int, '>') {
            Some(inner) => match parse_spaceless(inner) {
                Ok(e) => Ok(TypeExpr::Option(Box::new(e))),
                Err(x) => Err(x),
            },
            None => Err(syntax_error(Wrapper::Option, Fault::MissingClose, t)),
        }
    } else if has_prefix(t, "Vec<"@) {
        match enclosed(t, "Vec<"@.len() as int, '>') {
            Some(inner) => match parse_spaceless(inner) {
                Ok(e) => Ok(TypeExpr::Vec(Box::new(e))),
                Err(x) => Err(x),
            },
            None => Err(syntax_error(Wrapper::Vec, Fault::MissingClose, t)),
        }
    } else if has_prefix(t, "VecDeque<"@) {
        match enclosed(t, "VecDeque<"@.len() as int, '>') {
            Some(inner) => match parse_spaceless(inner) {
                Ok(e) => Ok(TypeExpr::Vec(Box::new(e))),
                Err(x) => Err(x),
            },
            None => Err(syntax_error(Wrapper::VecDeque, Fault::MissingClose, t)),
        }
    } else if has_prefix(t, "["@) {
        match enclosed(t, "["@.len() as int, ']') {
            Some(inner) => {
                let q = last_index_of(inner, ';');
                proof {
                    lemma_last_index_bound(inner, ';');
                }
                if q < 0 {
                    Err(syntax_error(Wrapper::BracketArray, Fault::MissingSeparator, t))
                } else {
                    array_result(
                        parse_spaceless(inner.subrange(0, q)),
                        inner.subrange(q + 1, inner.len() as int),
                        Wrapper::BracketArray,
                    )
                }
            },
            None => Err(syntax_error(Wrapper::BracketArray, Fault::MissingClose, t)),
        }
    } else if has_prefix(t, "Array<"@) {
        match enclosed(t, "Array<"@.len() as int, '>') {
            Some(inner) => {
                let q = last_index_of(inner, ',');
                proof {
                    lemma_last_index_bound(inner, ',');
                }
                if q < 0 {
                    Err(syntax_error(Wrapper::Array, Fault::MissingSeparator, t))
                } else {
                    array_result(
                        parse_spaceless(inner.subrange(0, q)),
                        inner.subrange(q + 1, inner.len() as int),
                        Wrapper::Array,
                    )
                }
            },
            None => Err(syntax_error(Wrapper::Array, Fault::MissingClose, t)),
        }
    } else if has_prefix(t, "HashMap<"@) {
        match enclosed(t, "HashMap<"@.len() as int, '>') {
            Some(inner) => match split_pair(inner) {
                Some((k, v)) => match parse_spaceless(k) {
                    Err(x) => Err(x),
                    Ok(ke) => match parse_spaceless(v) {
                        Err(x) => Err(x),
                        Ok(ve) => Ok(TypeExpr::HashMap(Box::new(ke), Box::new(ve))),
                    },
                },
                None => Err(syntax_error(Wrapper::HashMap, Fault::BadArguments, t)),
            },
            None => Err(syntax_error(Wrapper::HashMap, Fault::MissingClose, t)),
        }
    } else {
        Ok(TypeExpr::Custom(t))
    }
}

/// The type that the signature `s` stands for: whitespace is not significant.
pub open spec fn parse_type(s: Seq<char>) -> Result<TypeExpr, SyntaxError> {
    parse_spaceless(strip_spaces(s))
}

/// The mathematical value of a parse result.
pub open spec fn result_view(r: Result<BorshType, ParseError>) -> Result<TypeExpr, SyntaxError> {
    match r {
        Ok(b) => Ok(b@),
        Err(e) => Err(e@),
    }
}

fn chars_to_string(v: &Vec<char>) -> (r: String)
    ensures
        r@ == v@,
{
    let mut out = String::new();
    let mut i: usize = 0;
    while i < v.len()
        invariant
            i <= v@.len(),
            out@ == v@.subrange(0, i as int),
        decreases v@.len() - i,
    {
        push_char(&mut out, v[i]);
        i = i + 1;
        assert(out@ =~= v@.subrange(0, i as int));
    }
    assert(v@.subrange(0, v@.len() as int) =~= v@);
    out
}

fn error_at(wrapper: Wrapper, fault: Fault, t: &Vec<char>) -> (r: ParseError)
    ensures
        r@ == syntax_error(wrapper, fault, t@),
{
    ParseError { wrapper, fault, text: chars_to_string(t) }
}

/// Whether `t` is exactly the text `w`.
fn is_word(t: &Vec<char>, w: &str) -> (r: bool)
    ensures
        r == (t@ == w@),
{
    let n = w.unicode_len();
    if t.len() != n {
        return false;
    }
    let mut i: usize = 0;
    while i < n
        invariant
            n == w@.len(),
            n == t@.len(),
            i <= n,
            forall|k: int| 0 <= k < i ==> t@[k] == w@[k],
        decreases n - i,
    {
        if t[i] != w.get_char(i) {
            return false;
        }
        i = i + 1;
    }
    assert(t@ =~= w@);
    true
}

/// Whether `t` begins with the text `w`.
fn starts_with_word(t: &Vec<char>, w: &str) -> (r: bool)
    ensures
        r == has_prefix(t@, w@),
{
    let n = w.unicode_len();
    if t.len() < n {
        return false;
    }
    let mut i: usize = 0;
    while i < n
        invariant
            n == w@.len(),
            n <= t@.len(),
            i <= n,
            forall|k: int| 0 <= k < i ==> t@[k] == w@[k],
        decreases n - i,
    {
        if t[i] != w.get_char(i) {
            assert(t@.subrange(0, n as int)[i as int] != w@[i as int]);
            return false;
        }
        i = i + 1;
    }
    assert(t@.subrange(0, n as int) =~= w@);
    true
}

/// The text between the first `k` characters and a final `close`.
fn enclosed_chars(t: &Vec<char>, k: usize, close: char) -> (r: Option<Vec<char>>)
    ensures
        match r {
            Some(inner) => enclosed(t@, k as int, close) == Some(inner@),
            None => enclosed(t@, k as int, close) is None,
        },
{
    let n = t.len();
    if k < n && t[n - 1] == close {
        Some(slice_chars(t, k, n - 1))
    } else {
        None
    }
}

/// The position of the last `c` in `t`.
fn last_index(t: &Vec<char>, c: char) -> (r: Option<usize>)
    ensures
        match r {
            Some(q) => q as int == last_index_of(t@, c) && q < t@.len(),
            None => last_index_of(t@, c) < 0,
        },
{
    let mut i: usize = t.len();
    assert(t@.subrange(0, i as int) =~= t@);
    while i > 0
        invariant
            i <= t@.len(),
            last_index_of(t@, c) == last_index_of(t@.subrange(0, i as int), c),
        decreases i,
    {
        assert(t@.subrange(0, i as int).drop_last() =~= t@.subrange(0, i - 1));
        if t[i - 1] == c {
            return Some(i - 1);
        }
        i = i - 1;
    }
    None
}

/// The scalar that `t` names exactly, if any.
fn scalar(t: &Vec<char>) -> (r: Option<BorshType>)
    ensures
        match r {
            Some(b) => scalar_of(t@) == Some(b@),
            None => scalar_of(t@) is None,
        },
{
    if is_word(t, "u8") || is_word(t, "i8") {
        Some(BorshType::U8)
    } else if is_word(t, "u16") || is_word(t, "i16") {
        Some(BorshType::U16)
    } else if is_word(t, "u32") || is_word(t, "i32") {
        Some(BorshType::U32)
    } else if is_word(t, "u64") || is_word(t, "i64") || is_word(t, "UnixTimestamp") {
        Some(BorshType::U64)
    } else if is_word(t, "u128") || is_word(t, "i128") {
        Some(BorshType::U128)
    } else if is_word(t, "bool") {
        Some(BorshType::Bool)
    } else if is_word(t, "String") || is_word(t, "string") {
        Some(BorshType::String)
    } else if is_word(t, "Pubkey") {
        Some(BorshType::Pubkey)
    } else {
        None
    }
}

fn proc_option(t: &Vec<char>) -> (r: Result<BorshType, ParseError>)
    requires
        scalar_of(t@) is None,
        has_prefix(t@, "Option<"@),
    ensures
        result_view(r) == parse_spaceless(t@),
    decreases t@.len(), 0nat,
{
    proof {
        reveal_strlit("Option<");
    }
    match enclosed_chars(t, 7, '>') {
        Some(inner) => match parse_chars(&inner) {
            Ok(b) => Ok(BorshType::Option(Box::new(b))),
            Err(e) => Err(e),
        },
        None => Err(error_at(Wrapper::Option, Fault::MissingClose, t)),
    }
}

fn proc_vec(t: &Vec<char>) -> (r: Result<BorshType, ParseError>)
    requires
        scalar_of(t@) is None,
        !has_prefix(t@, "Option<"@),
        has_prefix(t@, "Vec<"@),
    ensures
        result_view(r) == parse_spaceless(t@),
    decreases t@.len(), 0nat,
{
    proof {
        reveal_strlit("Vec<");
    }
    match enclosed_chars(t, 4, '>') {
        Some(inner) => match parse_chars(&inner) {
            Ok(b) => Ok(BorshType::Vec(Box::new(b))),
            Err(e) => Err(e),
        },
        None => Err(error_at(Wrapper::Vec, Fault::MissingClose, t)),
    }
}

fn proc_vec_deque(t: &Vec<char>) -> (r: Result<BorshType, ParseError>)
    requires
        scalar_of(t@) is None,
        !has_prefix(t@, "Option<"@),
        !has_prefix(t@, "Vec<"@),
        has_prefix(t@, "VecDeque<"@),
    ensures
        result_view(r) == parse_spaceless(t@),
    decreases t@.len(), 0nat,
{
    proof {
        reveal_strlit("VecDeque<");
    }
    match enclosed_chars(t, 9, '>') {
        Some(inner) => match parse_chars(&inner) {
            Ok(b) => Ok(BorshType::Vec(Box::new(b))),
            Err(e) => Err(e),
        },
        None => Err(error_at(Wrapper::VecDeque, Fault::MissingClose, t)),
    }
}

/// The array of `n` elements of the already parsed `elem`, or the error on
/// the length text.
fn finish_array(elem: Result<BorshType, ParseError>, len_text: &Vec<char>, wrapper: Wrapper) -> (r:
    Result<BorshType, ParseError>)
    ensures
        result_view(r) == array_result(result_view(elem), len_text@, wrapper),
{
    match elem {
        Err(e) => Err(e),
        Ok(b) => match parse_length(len_text) {
            Some(n) => {
                if matches!(b, BorshType::U8) {
                    Ok(BorshType::FixedBytes(n))
                } else {
                    Ok(BorshType::FixedArray(Box::new(b), n))
                }
            },
            None => Err(error_at(wrapper, Fault::BadLength, len_text)),
        },
    }
}

fn proc_arr_old(t: &Vec<char>) -> (r: Result<BorshType, ParseError>)
    requires
        scalar_of(t@) is None,
        !has_prefix(t@, "Option<"@),
        !has_prefix(t@, "Vec<"@),
        !has_prefix(t@, "VecDeque<"@),
        has_prefix(t@, "["@),
    ensures
        result_view(r) == parse_spaceless(t@),
    decreases t@.len(), 0nat,
{
    proof {
        reveal_strlit("[");
    }
    match enclosed_chars(t, 1, ']') {
        Some(inner) => match last_index(&inner, ';') {
            Some(q) => {
                let elem_text = slice_chars(&inner, 0, q);
                let len_text = slice_chars(&inner, q + 1, inner.len());
                let elem = parse_chars(&elem_text);
                finish_array(elem, &len_text, Wrapper::BracketArray)
            },
            None => Err(error_at(Wrapper::BracketArray, Fault::MissingSeparator, t)),
        },
        None => Err(error_at(Wrapper::BracketArray, Fault::MissingClose, t)),
    }
}

fn proc_arr(t: &Vec<char>) -> (r: Result<BorshType, ParseError>)
    requires
        scalar_of(t@) is None,
        !has_prefix(t@, "Option<"@),
        !has_prefix(t@, "Vec<"@),
        !has_prefix(t@, "VecDeque<"@),
        !has_prefix(t@, "["@),
        has_prefix(t@, "Array<"@),
    ensures
        result_view(r) == parse_spaceless(t@),
    decreases t@.len(), 0nat,
{
    proof {
        reveal_strlit("Array<");
    }
    match enclosed_chars(t, 6, '>') {
        Some(inner) => match last_index(&inner, ',') {
            Some(q) => {
                let elem_text = slice_chars(&inner, 0, q);
                let len_text = slice_chars(&inner, q + 1, inner.len());
                let elem = parse_chars(&elem_text);
                finish_array(elem, &len_text, Wrapper::Array)
            },
            None => Err(error_at(Wrapper::Array, Fault::MissingSeparator, t)),
        },
        None => Err(error_at(Wrapper::Array, Fault::MissingClose, t)),
    }
}

fn proc_hash_map(t: &Vec<char>) -> (r: Result<BorshType, ParseError>)
    requires
        scalar_of(t@) is None,
        !has_prefix(t@, "Option<"@),
        !has_prefix(t@, "Vec<"@),
        !has_prefix(t@, "VecDeque<"@),
        !has_prefix(t@, "["@),
        !has_prefix(t@, "Array<"@),
        has_prefix(t@, "HashMap<"@),
    ensures
        result_view(r) == parse_spaceless(t@),
    decreases t@.len(), 0nat,
{
    proof {
        reveal_strlit("HashMap<");
    }
    match enclosed_chars(t, 8, '>') {
        Some(inner) => match split_top_level(&inner) {
            Some((key_text, value_text)) => {
                let key = parse_chars(&key_text)?;
                let value = parse_chars(&value_text)?;
                Ok(BorshType::HashMap(Box::new(key), Box::new(value)))
            },
            None => Err(error_at(Wrapper::HashMap, Fault::BadArguments, t)),
        },
        None => Err(error_at(Wrapper::HashMap, Fault::MissingClose, t)),
    }
}

fn if_starts_with_patterns(t: &Vec<char>) -> (r: Result<BorshType, ParseError>)
    requires
        scalar_of(t@) is None,
    ensures
        result_view(r) == parse_spaceless(t@),
    decreases t@.len(), 1nat,
{
    if starts_with_word(t, "Option<") {
        proc_option(t)
    } else if starts_with_word(t, "Vec<") {
        proc_vec(t)
    } else if starts_with_word(t, "VecDeque<") {
        proc_vec_deque(t)
    } else if starts_with_word(t, "[") {
        proc_arr_old(t)
    } else if starts_with_word(t, "Array<") {
        proc_arr(t)
    } else if starts_with_word(t, "HashMap<") {
        proc_hash_map(t)
    } else {
        Ok(BorshType::Custom(chars_to_string(t)))
    }
}

fn parse_chars(t: &Vec<char>) -> (r: Result<BorshType, ParseError>)
    ensures
        result_view(r) == parse_spaceless(t@),
    decreases t@.len(), 2nat,
{
    match scalar(t) {
        Some(b) => Ok(b),
        None => if_starts_with_patterns(t),
    }
}

impl BorshType {
    /// Parses a stringified Rust type signature. Whitespace is ignored;
    /// names that no rule recognises become [`BorshType::Custom`].
    pub fn from_str(input: &str) -> (r: Result<BorshType, ParseError>)
        ensures
            result_view(r) == parse_type(input@),
    {
        let t = spaceless_chars(input);
        parse_chars(&t)
    }
}

/// `e` holds no [`TypeExpr::Skip`], which has no rendering.
pub open spec fn renderable(e: TypeExpr) -> bool
    decreases e,
{
    match e {
        TypeExpr::Vec(inner) => renderable(*inner),
        TypeExpr::FixedArray(inner, _) => renderable(*inner),
        TypeExpr::Option(inner) => renderable(*inner),
        TypeExpr::HashMap(k, v) => renderable(*k) && renderable(*v),
        TypeExpr::Skip => false,
        _ => true,
    }
}

/// The borsh-js schema literal of `e`.
pub open spec fn schema_text(e: TypeExpr) -> Seq<char>
    decreases e,
{
    match e {
        TypeExpr::U8 => "'u8'"@,
        TypeExpr::Bool => "'u8'"@,
        TypeExpr::U16 => "'u16'"@,
        TypeExpr::U32 => "'u32'"@,
        TypeExpr::U64 => "'u64'"@,
        TypeExpr::U128 => "'u128'"@,
        TypeExpr::String => "'string'"@,
        TypeExpr::Pubkey => "'publicKeyHack'"@,
        TypeExpr::Vec(inner) => "["@ + schema_text(*inner) + "]"@,
        TypeExpr::FixedArray(inner, n) => "["@ + schema_text(*inner) + ", "@ + decimal(n) + "]"@,
        TypeExpr::FixedBytes(n) => "["@ + decimal(n) + "]"@,
        TypeExpr::Option(inner) => "{ kind: 'option', type: "@ + schema_text(*inner) + " }"@,
        TypeExpr::HashMap(k, v) => "{ kind: 'map', key: "@ + schema_text(*k) + ", value: "@
            + schema_text(*v) + " }"@,
        TypeExpr::Custom(name) => name,
        TypeExpr::Skip => Seq::empty(),
    }
}

/// The TypeScript type of `e`. 64- and 128-bit integers become `BN`, as a
/// JavaScript number cannot hold them exactly.
pub open spec fn class_text(e: TypeExpr) -> Seq<char>
    decreases e,
{
    match e {
        TypeExpr::U8 => "number"@,
        TypeExpr::U16 => "number"@,
        TypeExpr::U32 => "number"@,
        TypeExpr::U64 => "BN"@,
        TypeExpr::U128 => "BN"@,
        TypeExpr::Bool => "boolean"@,
        TypeExpr::String => "string"@,
        TypeExpr::Pubkey => "PublicKey"@,
        TypeExpr::Vec(inner) => class_text(*inner) + "[]"@,
        TypeExpr::FixedArray(inner, _) => class_text(*inner) + "[]"@,
        TypeExpr::FixedBytes(n) => "["@ + decimal(n) + "]"@,
        TypeExpr::Option(inner) => class_text(*inner) + " | null"@,
        TypeExpr::HashMap(k, v) => "Map<"@ + class_text(*k) + ", "@ + class_text(*v) + ">"@,
        TypeExpr::Custom(name) => name,
        TypeExpr::Skip => Seq::empty(),
    }
}

/// A parsed type never holds [`TypeExpr::Skip`], so it can always be rendered.
pub proof fn lemma_parse_renderable(t: Seq<char>)
    ensures
        parse_spaceless(t) is Ok ==> renderable(parse_spaceless(t)->Ok_0),
    decreases t.len(),
{
    if scalar_of(t) is Some {
    } else if has_prefix(t, "Option<"@) {
        match enclosed(t, "Option<"@.len() as int, '>') {
            Some(inner) => lemma_parse_renderable(inner),
            None => {},
        }
    } else if has_prefix(t, "Vec<"@) {
        match enclosed(t, "Vec<"@.len() as int, '>') {
            Some(inner) => lemma_parse_renderable(inner),
            None => {},
        }
    } else if has_prefix(t, "VecDeque<"@) {
        match enclosed(t, "VecDeque<"@.len() as int, '>') {
            Some(inner) => lemma_parse_renderable(inner),
            None => {},
        }
    } else if has_prefix(t, "["@) {
        match enclosed(t, "["@.len() as int, ']') {
            Some(inner) => {
                lemma_last_index_bound(inner, ';');
                let q = last_index_of(inner, ';');
                if q >= 0 {
                    lemma_parse_renderable(inner.subrange(0, q));
                }
            },
            None => {},
        }
    } else if has_prefix(t, "Array<"@) {
        match enclosed(t, "Array<"@.len() as int, '>') {
            Some(inner) => {
                lemma_last_index_bound(inner, ',');
                let q = last_index_of(inner, ',');
                if q >= 0 {
                    lemma_parse_renderable(inner.subrange(0, q));
                }
            },
            None => {},
        }
    } else if has_prefix(t, "HashMap<"@) {
        match enclosed(t, "HashMap<"@.len() as int, '>') {
            Some(inner) => match split_pair(inner) {
                Some((k, v)) => {
                    lemma_parse_renderable(k);
                    lemma_parse_renderable(v);
                },
                None => {},
            },
            None => {},
        }
    }
}

proof fn lemma_scalar_word(w: Seq<char>, e: TypeExpr)
    requires
        spaceless(w),
        scalar_of(w) == Some(e),
    ensures
        parse_type(w) == Ok::<TypeExpr, SyntaxError>(e),
{
    lemma_strip_spaceless(w);
}

/// Signed and unsigned spellings of one bit width parse to the same scalar,
/// as do the other aliases of a scalar.
pub proof fn lemma_scalar_aliases()
    ensures
        parse_type("u8"@) == parse_type("i8"@),
        parse_type("u8"@) == Ok::<TypeExpr, SyntaxError>(TypeExpr::U8),
        parse_type("u16"@) == parse_type("i16"@),
        parse_type("u16"@) == Ok::<TypeExpr, SyntaxError>(TypeExpr::U16),
        parse_type("u32"@) == parse_type("i32"@),
        parse_type("u32"@) == Ok::<TypeExpr, SyntaxError>(TypeExpr::U32),
        parse_type("u64"@) == parse_type("i64"@),
        parse_type("u64"@) == parse_type("UnixTimestamp"@),
        parse_type("u64"@) == Ok::<TypeExpr, SyntaxError>(TypeExpr::U64),
        parse_type("u128"@) == parse_type("i128"@),
        parse_type("u128"@) == Ok::<TypeExpr, SyntaxError>(TypeExpr::U128),
        parse_type("String"@) == parse_type("string"@),
        parse_type("String"@) == Ok::<TypeExpr, SyntaxError>(TypeExpr::String),
{
    reveal_strlit("u8");
    reveal_strlit("i8");
    reveal_strlit("u16");
    reveal_strlit("i16");
    reveal_strlit("u32");
    reveal_strlit("i32");
    reveal_strlit("u64");
    reveal_strlit("i64");
    reveal_strlit("UnixTimestamp");
    reveal_strlit("u128");
    reveal_strlit("i128");
    reveal_strlit("bool");
    reveal_strlit("String");
    reveal_strlit("string");
    lemma_scalar_word("u8"@, TypeExpr::U8);
    lemma_scalar_word("i8"@, TypeExpr::U8);
    lemma_scalar_word("u16"@, TypeExpr::U16);
    lemma_scalar_word("i16"@, TypeExpr::U16);
    assert("u32"@[1] != "u16"@[1] && "u32"@[1] != "i16"@[1]);
    assert("i32"@[1] != "u16"@[1] && "i32"@[1] != "i16"@[1]);
    lemma_scalar_word("u32"@, TypeExpr::U32);
    lemma_scalar_word("i32"@, TypeExpr::U32);
    lemma_scalar_word("u64"@, TypeExpr::U64);
    lemma_scalar_word("i64"@, TypeExpr::U64);
    lemma_scalar_word("UnixTimestamp"@, TypeExpr::U64);
    lemma_scalar_word("u128"@, TypeExpr::U128);
    lemma_scalar_word("i128"@, TypeExpr::U128);
    lemma_scalar_word("String"@, TypeExpr::String);
    lemma_scalar_word("string"@, TypeExpr::String);
}

/// Both renderings depend on a type's structure alone: two types with the
/// same structure render to the same texts, whichever is rendered first.
pub proof fn lemma_rendering_by_structure(a: BorshType, b: BorshType)
    requires
        a@ == b@,
        renderable(a@),
    ensures
        renderable(b@),
        schema_text(a@) == schema_text(b@),
        class_text(a@) == class_text(b@),
{
}

impl BorshType {
    /// Whether the type can be rendered: it holds no [`BorshType::Skip`].
    pub fn has_rendering(&self) -> (r: bool)
        ensures
            r == renderable(self@),
        decreases self,
    {
        match self {
            BorshType::Vec(inner) => inner.has_rendering(),
            BorshType::FixedArray(inner, _) => inner.has_rendering(),
            BorshType::Option(inner) => inner.has_rendering(),
            BorshType::HashMap(key, value) => key.has_rendering() && value.has_rendering(),
            BorshType::Skip => false,
            _ => true,
        }
    }

    pub(crate) fn write_schema(&self, out: &mut String)
        requires
            renderable(self@),
        ensures
            final(out)@ == old(out)@ + schema_text(self@),
        decreases self,
    {
        match self {
            BorshType::U8 | BorshType::Bool => out.append("'u8'"),
            BorshType::U16 => out.append("'u16'"),
            BorshType::U32 => out.append("'u32'"),
            BorshType::U64 => out.append("'u64'"),
            BorshType::U128 => out.append("'u128'"),
            BorshType::String => out.append("'string'"),
            BorshType::Pubkey => out.append("'publicKeyHack'"),
            BorshType::Vec(inner) => {
                out.append("[");
                inner.write_schema(out);
                out.append("]");
            },
            BorshType::FixedArray(inner, len) => {
                out.append("[");
                inner.write_schema(out);
                out.append(", ");
                push_decimal(out, *len);
                out.append("]");
            },
            BorshType::FixedBytes(len) => {
                out.append("[");
                push_decimal(out, *len);
                out.append("]");
            },
            BorshType::Option(inner) => {
                out.append("{ kind: 'option', type: ");
                inner.write_schema(out);
                out.append(" }");
            },
            BorshType::HashMap(key, value) => {
                out.append("{ kind: 'map', key: ");
                key.write_schema(out);
                out.append(", value: ");
                value.write_schema(out);
                out.append(" }");
            },
            BorshType::Custom(name) => out.append(name.as_str()),
            BorshType::Skip => {},
        }
        assert(out@ =~= old(out)@ + schema_text(self@));
    }

    pub(crate) fn write_class_type(&self, out: &mut String)
        requires
            renderable(self@),
        ensures
            final(out)@ == old(out)@ + class_text(self@),
        decreases self,
    {
        match self {
            BorshType::U8 | BorshType::U16 | BorshType::U32 => out.append("number"),
            BorshType::U64 | BorshType::U128 => out.append("BN"),
            BorshType::Bool => out.append("boolean"),
            BorshType::String => out.append("string"),
            BorshType::Pubkey => out.append("PublicKey"),
            BorshType::Vec(inner) => {
                inner.write_class_type(out);
                out.append("[]");
            },
            BorshType::FixedArray(inner, _len) => {
                inner.write_class_type(out);
                out.append("[]");
            },
            BorshType::FixedBytes(len) => {
                out.append("[");
                push_decimal(out, *len);
                out.append("]");
            },
            BorshType::Option(inner) => {
                inner.write_class_type(out);
                out.append(" | null");
            },
            BorshType::HashMap(key, value) => {
                out.append("Map<");
                key.write_class_type(out);
                out.append(", ");
                value.write_class_type(out);
                out.append(">");
            },
            BorshType::Custom(name) => out.append(name.as_str()),
            BorshType::Skip => {},
        }
        assert(out@ =~= old(out)@ + class_text(self@));
    }

    /// Converts the type to a schema representation used by borsh-js.
    pub fn to_borsh_schema(&self) -> (r: String)
        requires
            renderable(self@),
        ensures
            r@ == schema_text(self@),
    {
        let mut out = String::new();
        self.write_schema(&mut out);
        assert(out@ =~= schema_text(self@));
        out
    }

    /// Converts the type to a TypeScript class type.
    pub fn to_class_type(&self) -> (r: String)
        requires
            renderable(self@),
        ensures
            r@ == class_text(self@),
    {
        let mut out = String::new();
        self.write_class_type(&mut out);
        assert(out@ =~= class_text(self@));
        out
    }
}

} // verus!
