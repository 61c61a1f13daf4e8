//! The grammar of type names: `name`, `name<a,b,...>` and `(a,b,...)`,
//! with whitespace allowed around every name and delimiter.
use crate::error::{Error, ErrorView};
use crate::round_trip::{lemma_parse_sound, lemma_parse_wf, squeeze};
use crate::types::{is_name, is_name_char, lemma_shapes, shapes, Plain, Primitive, Shape, Type};
use vstd::prelude::*;

verus! {

pub open spec fn is_space(c: char) -> bool {
    c == ' ' || c == '\t' || c == '\n' || c == '\r'
}

/// `s` without its leading whitespace.
pub open spec fn trim_start(s: Seq<char>) -> Seq<char>
    decreases s.len(),
{
    if s.len() > 0 && is_space(s[0]) {
        trim_start(s.drop_first())
    } else {
        s
    }
}

/// `s` without its trailing whitespace.
pub open spec fn trim_end(s: Seq<char>) -> Seq<char>
    decreases s.len(),
{
    if s.len() > 0 && is_space(s.last()) {
        trim_end(s.drop_last())
    } else {
        s
    }
}

/// `s` without the whitespace at either end.
pub open spec fn trim(s: Seq<char>) -> Seq<char> {
    trim_end(trim_start(s))
}

pub proof fn lemma_trim_start_len(s: Seq<char>)
    ensures
        trim_start(s).len() <= s.len(),
    decreases s.len(),
{
    if s.len() > 0 && is_space(s[0]) {
        lemma_trim_start_len(s.drop_first());
    }
}

pub proof fn lemma_trim_end_len(s: Seq<char>)
    ensures
        trim_end(s).len() <= s.len(),
    decreases s.len(),
{
    if s.len() > 0 && is_space(s.last()) {
        lemma_trim_end_len(s.drop_last());
    }
}

pub proof fn lemma_trim_len(s: Seq<char>)
    ensures
        trim(s).len() <= s.len(),
{
    lemma_trim_start_len(s);
    lemma_trim_end_len(trim_start(s));
}

/// What a character adds to the nesting depth.
pub open spec fn step(c: char) -> int {
    if c == '<' || c == '(' {
        1
    } else if c == '>' || c == ')' {
        -1
    } else {
        0
    }
}

/// The nesting depth at the end of `s`: delimiters opened minus delimiters
/// closed.
pub open spec fn depth(s: Seq<char>) -> int
    decreases s.len(),
{
    if s.len() == 0 {
        0
    } else {
        depth(s.drop_last()) + step(s.last())
    }
}

/// The place of the last comma of `s` that stands outside every pair of
/// delimiters, or -1 where there is none.
pub open spec fn last_top_comma(s: Seq<char>) -> int
    decreases s.len(),
{
    if s.len() == 0 {
        -1
    } else if s.last() == ',' && depth(s.drop_last()) == 0 {
        s.len() - 1
    } else {
        last_top_comma(s.drop_last())
    }
}

/// The place of the first `<` of `s`, or the length of `s` where there is
/// none.
pub open spec fn first_angle(s: Seq<char>) -> int
    decreases s.len(),
{
    if s.len() == 0 {
        0
    } else if s[0] == '<' {
        0
    } else {
        1 + first_angle(s.drop_first())
    }
}

/// The shapes that a comma-separated list of type names denotes.
pub open spec fn parse_list_spec(s: Seq<char>) -> Option<Seq<Shape>>
    decreases s.len(), 1nat,
{
    let k = last_top_comma(s);
    if 0 <= k < s.len() {
        match (parse_list_spec(s.take(k)), parse_spec(s.skip(k + 1))) {
            (Some(items), Some(item)) => Some(items.push(item)),
            _ => None,
        }
    } else {
        match parse_spec(s) {
            Some(item) => Some(seq![item]),
            None => None,
        }
    }
}

/// The shape that a type name denotes, or `None` where the text is no type
/// name: a delimiter without its partner, a missing or unknown name.
pub open spec fn parse_spec(s: Seq<char>) -> Option<Shape>
    decreases s.len(), 0nat,
{
    let t = trim(s);
    proof {
        lemma_trim_len(s);
    }
    if t.len() == 0 {
        None
    } else if t[0] == '(' {
        if t.len() >= 2 && t.last() == ')' {
            let inner = t.subrange(1, t.len() - 1);
            if trim(inner).len() == 0 {
                Some(Shape::Tuple(Seq::empty()))
            } else {
                match parse_list_spec(inner) {
                    Some(elems) => Some(Shape::Tuple(elems)),
                    None => None,
                }
            }
        } else {
            None
        }
    } else if t.last() == '>' {
        let k = first_angle(t);
        if 0 <= k < t.len() - 1 {
            let name = trim(t.take(k));
            let inner = t.subrange(k + 1, t.len() - 1);
            if is_name(name) {
                match parse_list_spec(inner) {
                    Some(args) => Some(Shape::Generic(name, args)),
                    None => None,
                }
            } else {
                None
            }
        } else {
            None
        }
    } else {
        match Primitive::from_name_spec(t) {
            Some(p) => Some(Shape::Primitive(p)),
            None => match Plain::from_name_spec(t) {
                Some(p) => Some(Shape::Plain(p)),
                None => None,
            },
        }
    }
}


fn is_space_char(c: char) -> (r: bool)
    ensures
        r == is_space(c),
{
    c == ' ' || c == '\t' || c == '\n' || c == '\r'
}

fn is_name_char_exec(c: char) -> (r: bool)
    ensures
        r == is_name_char(c),
{
    ('a' <= c && c <= 'z') || ('A' <= c && c <= 'Z') || ('0' <= c && c <= '9') || c == '_'
}

/// Cuts the whitespace off both ends of `s`.
fn trim_str(s: &str) -> (r: &str)
    ensures
        r@ == trim(s@),
{
    let n = s.unicode_len();
    let mut lo: usize = 0;
    assert(s@.subrange(0, n as int) =~= s@);
    while lo < n && is_space_char(s.get_char(lo))
        invariant
            0 <= lo <= n,
            n == s@.len(),
            trim_start(s@) == trim_start(s@.subrange(lo as int, n as int)),
        decreases n - lo,
    {
        assert(s@.subrange(lo as int, n as int).drop_first() =~= s@.subrange(lo + 1, n as int));
        lo = lo + 1;
    }
    let mut hi: usize = n;
    while hi > lo && is_space_char(s.get_char(hi - 1))
        invariant
            0 <= lo <= hi <= n,
            n == s@.len(),
            trim(s@) == trim_end(s@.subrange(lo as int, hi as int)),
        decreases hi - lo,
    {
        assert(s@.subrange(lo as int, hi as int).drop_last() =~= s@.subrange(
            lo as int,
            hi - 1,
        ));
        hi = hi - 1;
    }
    s.substring_char(lo, hi)
}

/// Whether `s` is a name.
fn is_name_str(s: &str) -> (r: bool)
    ensures
        r == is_name(s@),
{
    let n = s.unicode_len();
    if n == 0 {
        return false;
    }
    let mut i: usize = 0;
    while i < n
        invariant
            0 <= i <= n,
            n == s@.len(),
            forall|j: int| 0 <= j < i ==> is_name_char(#[trigger] s@[j]),
        decreases n - i,
    {
        if !is_name_char_exec(s.get_char(i)) {
            return false;
        }
        i = i + 1;
    }
    true
}

/// Finds the last comma that stands outside every pair of delimiters.
fn find_last_top_comma(s: &str) -> (r: Option<usize>)
    ensures
        match r {
            Some(k) => k == last_top_comma(s@) && k < s@.len(),
            None => last_top_comma(s@) == -1,
        },
{
    let n = s.unicode_len();
    let mut i: usize = 0;
    let mut d: i128 = 0;
    let mut best: Option<usize> = None;
    while i < n
        invariant
            0 <= i <= n,
            n == s@.len(),
            d == depth(s@.take(i as int)),
            -i <= d <= i,
            match best {
                Some(k) => k == last_top_comma(s@.take(i as int)) && k < i,
                None => last_top_comma(s@.take(i as int)) == -1,
            },
        decreases n - i,
    {
        let c = s.get_char(i);
        proof {
            assert(s@.take(i + 1).drop_last() =~= s@.take(i as int));
            assert(s@.take(i + 1).last() == c);
        }
        if c == ',' && d == 0 {
            best = Some(i);
        }
        if c == '<' || c == '(' {
            d = d + 1;
        } else if c == '>' || c == ')' {
            d = d - 1;
        }
        i = i + 1;
    }
    assert(s@.take(n as int) =~= s@);
    best
}

/// Finds the first `<`.
fn find_first_angle(s: &str) -> (k: usize)
    ensures
        k == first_angle(s@),
        k <= s@.len(),
{
    let n = s.unicode_len();
    let mut i: usize = 0;
    assert(s@.skip(0) =~= s@);
    while i < n && s.get_char(i) != '<'
        invariant
            0 <= i <= n,
            n == s@.len(),
            first_angle(s@) == i + first_angle(s@.skip(i as int)),
        decreases n - i,
    {
        assert(s@.skip(i as int).drop_first() =~= s@.skip(i + 1));
        i = i + 1;
    }
    i
}

/// Parses a comma-separated list of type names.
fn parse_list_text(s: &str) -> (r: Option<Vec<Type>>)
    ensures
        match r {
            Some(items) => parse_list_spec(s@) == Some(shapes(items@)),
            None => parse_list_spec(s@) is None,
        },
    decreases s@.len(), 1nat,
{
    let n = s.unicode_len();
    match find_last_top_comma(s) {
        Some(k) => {
            let head = s.substring_char(0, k);
            let tail = s.substring_char(k + 1, n);
            assert(head@ =~= s@.take(k as int));
            assert(tail@ =~= s@.skip(k + 1));
            match parse_list_text(head) {
                Some(mut items) => match parse_text(tail) {
                    Some(item) => {
                        let ghost before = items@;
                        items.push(item);
                        proof {
                            assert(items@.drop_last() =~= before);
                        }
                        Some(items)
                    },
                    None => None,
                },
                None => None,
            }
        },
        None => match parse_text(s) {
            Some(item) => {
                let mut items: Vec<Type> = Vec::new();
                items.push(item);
                proof {
                    lemma_shapes(items@);
                    assert(shapes(items@) =~= seq![item@]);
                }
                Some(items)
            },
            None => None,
        },
    }
}

/// Parses one type name.
fn parse_text(s: &str) -> (r: Option<Type>)
    ensures
        match r {
            Some(t) => parse_spec(s@) == Some(t@),
            None => parse_spec(s@) is None,
        },
    decreases s@.len(), 0nat,
{
    let t = trim_str(s);
    proof {
        lemma_trim_len(s@);
    }
    let n = t.unicode_len();
    if n == 0 {
        return None;
    }
    let first = t.get_char(0);
    let last = t.get_char(n - 1);
    if first == '(' {
        if n >= 2 && last == ')' {
            let inner = t.substring_char(1, n - 1);
            if trim_str(inner).unicode_len() == 0 {
                let elems: Vec<Type> = Vec::new();
                assert(shapes(elems@) =~= Seq::<Shape>::empty());
                Some(Type::Tuple(elems))
            } else {
                match parse_list_text(inner) {
                    Some(elems) => Some(Type::Tuple(elems)),
                    None => None,
                }
            }
        } else {
            None
        }
    } else if last == '>' {
        let k = find_first_angle(t);
        if k < n - 1 {
            let head = t.substring_char(0, k);
            assert(head@ =~= t@.take(k as int));
            let name = trim_str(head);
            let inner = t.substring_char(k + 1, n - 1);
            if is_name_str(name) {
                match parse_list_text(inner) {
                    Some(args) => Some(Type::Generic { name: String::from_str(name), args }),
                    None => None,
                }
            } else {
                None
            }
        } else {
            None
        }
    } else {
        match Primitive::from_name(t) {
            Some(p) => Some(Type::Primitive(p)),
            None => match Plain::from_name(t) {
                Some(p) => Some(Type::Plain(p)),
                None => None,
            },
        }
    }
}

impl Type {
    /// Parses a type name. Whitespace around names and delimiters is
    /// ignored; a text that is no type name is rejected. The descriptor
    /// that comes out is well formed, and its canonical text is the input
    /// without its whitespace.
    pub fn parse(s: &str) -> (r: Result<Type, Error>)
        ensures
            match r {
                Ok(t) => parse_spec(s@) == Some(t@) && t.wf() && t@.text() == squeeze(s@),
                Err(e) => parse_spec(s@) is None && e@ == (ErrorView::TypeParseError { text: s@ }),
            },
    {
        proof {
            lemma_parse_wf(s@);
            lemma_parse_sound(s@);
        }
        match parse_text(s) {
            Some(t) => Ok(t),
            None => Err(Error::TypeParseError { text: String::from_str(s) }),
        }
    }
}

} // verus!
