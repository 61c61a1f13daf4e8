//! The canonical text of a descriptor parses back to the descriptor.
use crate::parse::{
    depth, first_angle, is_space, last_top_comma, lemma_trim_len, parse_list_spec, parse_spec,
    step, trim, trim_end, trim_start,
};
use crate::types::{all_wf, is_name, is_name_char, join_text, Plain, Primitive, Shape};
use vstd::prelude::*;

verus! {

/// No character of `s` is whitespace.
spec fn no_space(s: Seq<char>) -> bool {
    forall|i: int| 0 <= i < s.len() ==> !is_space(#[trigger] s[i])
}

/// No delimiter of `s` closes what was not opened.
spec fn never_negative(s: Seq<char>) -> bool {
    forall|j: int| 0 <= j <= s.len() ==> depth(#[trigger] s.take(j)) >= 0
}

/// Every comma of `s` stands inside a pair of delimiters.
spec fn commas_inside(s: Seq<char>) -> bool {
    forall|j: int| 0 <= j < s.len() && s[j] == ',' ==> depth(#[trigger] s.take(j)) > 0
}

/// What holds of a list of canonical texts joined by commas.
spec fn tidy_list(s: Seq<char>) -> bool {
    no_space(s) && depth(s) == 0 && never_negative(s)
}

/// What holds of the canonical text of one descriptor.
spec fn tidy(s: Seq<char>) -> bool {
    s.len() > 0 && tidy_list(s) && commas_inside(s)
}

/// Made of name characters only.
spec fn flat(s: Seq<char>) -> bool {
    forall|i: int| 0 <= i < s.len() ==> is_name_char(#[trigger] s[i])
}

proof fn lemma_depth_concat(a: Seq<char>, b: Seq<char>)
    ensures
        depth(a + b) == depth(a) + depth(b),
    decreases b.len(),
{
    if b.len() == 0 {
        assert(a + b =~= a);
    } else {
        assert((a + b).drop_last() =~= a + b.drop_last());
        lemma_depth_concat(a, b.drop_last());
    }
}

proof fn lemma_depth_one(c: char)
    ensures
        depth(seq![c]) == step(c),
{
    assert(seq![c].drop_last() =~= Seq::<char>::empty());
    assert(depth(seq![c].drop_last()) == 0);
}

/// A text of name characters has depth 0 at every place, and holds
/// neither comma nor whitespace nor `<`.
proof fn lemma_flat(s: Seq<char>)
    requires
        flat(s),
    ensures
        depth(s) == 0,
        never_negative(s),
        commas_inside(s),
        no_space(s),
        first_angle(s) == s.len(),
    decreases s.len(),
{
    if s.len() > 0 {
        lemma_flat(s.drop_last());
        assert(is_name_char(s.last()));
        assert forall|j: int| 0 <= j <= s.len() implies depth(#[trigger] s.take(j)) >= 0 by {
            if j < s.len() {
                assert(s.take(j) =~= s.drop_last().take(j));
            } else {
                assert(s.take(j) =~= s);
            }
        }
        assert forall|j: int| 0 <= j < s.len() && s[j] == ',' implies depth(
            #[trigger] s.take(j),
        ) > 0 by {
            assert(is_name_char(s[j]));
        }
        lemma_flat(s.drop_first());
        assert(is_name_char(s[0]));
    }
}

/// The text `head open body close` of a generic or a tuple is tidy.
proof fn lemma_wrap(head: Seq<char>, open: char, body: Seq<char>, close: char)
    requires
        flat(head),
        tidy_list(body),
        step(open) == 1,
        step(close) == -1,
        !is_space(open),
        !is_space(close),
    ensures
        tidy(head + seq![open] + body + seq![close]),
{
    let s = head + seq![open] + body + seq![close];
    let h = head.len() as int;
    let b = body.len() as int;
    lemma_flat(head);
    assert forall|j: int| 0 <= j <= s.len() implies depth(#[trigger] s.take(j)) == (if j <= h {
        0int
    } else if j <= h + 1 + b {
        1 + depth(body.take(j - h - 1))
    } else {
        0int
    }) by {
        if j <= h {
            assert(s.take(j) =~= head.take(j));
            lemma_flat(head.take(j));
        } else if j <= h + 1 + b {
            assert(s.take(j) =~= head + seq![open] + body.take(j - h - 1));
            lemma_depth_concat(head + seq![open], body.take(j - h - 1));
            lemma_depth_concat(head, seq![open]);
            lemma_depth_one(open);
        } else {
            assert(s.take(j) =~= s);
            lemma_depth_concat(head + seq![open] + body, seq![close]);
            lemma_depth_concat(head + seq![open], body);
            lemma_depth_concat(head, seq![open]);
            lemma_depth_one(open);
            lemma_depth_one(close);
        }
    }
    assert(s.take(s.len() as int) =~= s);
    assert forall|j: int| 0 <= j < s.len() && s[j] == ',' implies depth(#[trigger] s.take(j))
        > 0 by {
        if j < h {
            assert(is_name_char(head[j]));
        } else if j == h {
        } else if j < h + 1 + b {
            assert(depth(body.take(j - h - 1)) >= 0);
        }
    }
    assert forall|i: int| 0 <= i < s.len() implies !is_space(#[trigger] s[i]) by {
        if i < h {
            assert(!is_space(head[i]));
        } else if i == h {
        } else if i < h + 1 + b {
            assert(!is_space(body[i - h - 1]));
        }
    }
}

/// Two tidy texts joined by a comma make a tidy list.
proof fn lemma_join(list: Seq<char>, item: Seq<char>)
    requires
        tidy_list(list),
        tidy(item),
    ensures
        tidy_list(list + seq![','] + item),
        forall|j: int|
            0 <= j <= item.len() ==> depth(#[trigger] (list + seq![','] + item.take(j))) == depth(
                item.take(j),
            ),
{
    let s = list + seq![','] + item;
    let l = list.len() as int;
    lemma_depth_one(',');
    lemma_depth_concat(list, seq![',']);
    assert forall|j: int| 0 <= j <= item.len() implies depth(
        #[trigger] (list + seq![','] + item.take(j)),
    ) == depth(item.take(j)) by {
        lemma_depth_concat(list + seq![','], item.take(j));
    }
    assert forall|j: int| 0 <= j <= s.len() implies depth(#[trigger] s.take(j)) >= 0 by {
        if j <= l {
            assert(s.take(j) =~= list.take(j));
        } else {
            assert(s.take(j) =~= list + seq![','] + item.take(j - l - 1));
            assert(depth(item.take(j - l - 1)) >= 0);
        }
    }
    assert(s.take(s.len() as int) =~= s);
    assert(item.take(item.len() as int) =~= item);
    assert(s =~= list + seq![','] + item.take(item.len() as int));
    assert forall|i: int| 0 <= i < s.len() implies !is_space(#[trigger] s[i]) by {
        if i < l {
            assert(!is_space(list[i]));
        } else if i == l {
        } else {
            assert(!is_space(item[i - l - 1]));
        }
    }
}

/// The canonical text of a well-formed descriptor is tidy, and so is a
/// list of such texts.
proof fn lemma_text_tidy(sh: Shape)
    requires
        sh.wf(),
    ensures
        tidy(sh.text()),
    decreases sh, 1nat,
{
    match sh {
        Shape::Primitive(p) => {
            p.lemma_name_round_trip();
            lemma_flat(p.name_spec());
        },
        Shape::Plain(p) => {
            lemma_plain_name(p);
            lemma_flat(p.name_spec());
        },
        Shape::Generic(name, args) => {
            lemma_join_tidy(args);
            lemma_wrap(name, '<', join_text(args), '>');
        },
        Shape::Tuple(elems) => {
            lemma_join_tidy(elems);
            lemma_wrap(Seq::empty(), '(', join_text(elems), ')');
            assert(Seq::<char>::empty() + seq!['('] =~= seq!['(']);
        },
    }
}

proof fn lemma_join_tidy(items: Seq<Shape>)
    requires
        all_wf(items),
    ensures
        tidy_list(join_text(items)),
        items.len() > 0 ==> join_text(items).len() > 0,
    decreases items, 0nat,
{
    if items.len() == 0 {
        assert(join_text(items).take(0) =~= join_text(items));
    } else if items.len() == 1 {
        assert(items.drop_last().len() == 0);
        assert(items.last() == items[0]);
        lemma_text_tidy(items[0]);
    } else {
        lemma_join_tidy(items.drop_last());
        lemma_text_tidy(items.last());
        lemma_join(join_text(items.drop_last()), items.last().text());
    }
}

/// The name of a plain type is a name, and no leaf type has it.
proof fn lemma_plain_name(p: Plain)
    ensures
        is_name(p.name_spec()),
        Primitive::from_name_spec(p.name_spec()) is None,
        Plain::from_name_spec(p.name_spec()) == Some(p),
{
    reveal_strlit("SymmetricDistance");
    reveal_strlit("u8");
    reveal_strlit("u16");
    reveal_strlit("u32");
    reveal_strlit("u64");
    reveal_strlit("u128");
    reveal_strlit("i8");
    reveal_strlit("i16");
    reveal_strlit("i32");
    reveal_strlit("i64");
    reveal_strlit("i128");
    reveal_strlit("usize");
    reveal_strlit("f32");
    reveal_strlit("f64");
    reveal_strlit("bool");
    reveal_strlit("String");
    let s = "SymmetricDistance"@;
    assert(s.len() == 17);
    assert("u8"@.len() == 2 && "u16"@.len() == 3 && "u32"@.len() == 3 && "u64"@.len() == 3
        && "u128"@.len() == 4);
    assert("i8"@.len() == 2 && "i16"@.len() == 3 && "i32"@.len() == 3 && "i64"@.len() == 3
        && "i128"@.len() == 4);
    assert("usize"@.len() == 5 && "f32"@.len() == 3 && "f64"@.len() == 3 && "bool"@.len() == 4
        && "String"@.len() == 6);
    assert(s[0] == 'S' && s[1] == 'y' && s[2] == 'm' && s[3] == 'm' && s[4] == 'e' && s[5] == 't'
        && s[6] == 'r' && s[7] == 'i' && s[8] == 'c' && s[9] == 'D' && s[10] == 'i' && s[11]
        == 's' && s[12] == 't' && s[13] == 'a' && s[14] == 'n' && s[15] == 'c' && s[16] == 'e');
}

/// Trimming leaves a text without whitespace as it is.
proof fn lemma_trim_no_space(s: Seq<char>)
    requires
        no_space(s),
    ensures
        trim(s) == s,
{
    if s.len() > 0 {
        assert(!is_space(s[0]));
        assert(!is_space(s.last()));
    }
}

/// A tidy text has no comma outside its delimiters.
proof fn lemma_no_top_comma(s: Seq<char>, j: int)
    requires
        commas_inside(s),
        0 <= j <= s.len(),
    ensures
        last_top_comma(s.take(j)) == -1,
    decreases j,
{
    if j > 0 {
        assert(s.take(j).drop_last() =~= s.take(j - 1));
        assert(s.take(j).last() == s[j - 1]);
        lemma_no_top_comma(s, j - 1);
    }
}

/// In a list joined to one more item, the last comma outside all
/// delimiters is the one that joins them.
proof fn lemma_split(list: Seq<char>, item: Seq<char>, j: int)
    requires
        tidy_list(list),
        tidy(item),
        0 <= j <= item.len(),
    ensures
        last_top_comma(list + seq![','] + item.take(j)) == list.len(),
    decreases j,
{
    let s = list + seq![','] + item.take(j);
    if j == 0 {
        assert(s =~= list + seq![',']);
        assert(s.drop_last() =~= list);
    } else {
        assert(s.drop_last() =~= list + seq![','] + item.take(j - 1));
        assert(s.last() == item[j - 1]);
        lemma_join(list, item);
        lemma_split(list, item, j - 1);
    }
}

/// The first `<` of a name followed by `<` is that `<`.
proof fn lemma_first_angle(head: Seq<char>, rest: Seq<char>)
    requires
        flat(head),
    ensures
        first_angle(head + seq!['<'] + rest) == head.len(),
    decreases head.len(),
{
    let s = head + seq!['<'] + rest;
    if head.len() == 0 {
        assert(s[0] == '<');
    } else {
        assert(is_name_char(head[0]));
        assert(s[0] == head[0]);
        assert(s.drop_first() =~= head.drop_first() + seq!['<'] + rest);
        lemma_first_angle(head.drop_first(), rest);
    }
}

/// Parse round-trip: the canonical text of a well-formed descriptor
/// denotes that descriptor.
pub proof fn lemma_parse_text(sh: Shape)
    requires
        sh.wf(),
    ensures
        parse_spec(sh.text()) == Some(sh),
    decreases sh, 1nat,
{
    let t = sh.text();
    lemma_text_tidy(sh);
    lemma_trim_no_space(t);
    match sh {
        Shape::Primitive(p) => {
            p.lemma_name_round_trip();
            assert(is_name_char(t[0]));
            assert(is_name_char(t.last()));
        },
        Shape::Plain(p) => {
            lemma_plain_name(p);
            assert(is_name_char(t[0]));
            assert(is_name_char(t.last()));
        },
        Shape::Generic(name, args) => {
            let body = join_text(args);
            assert(is_name_char(name[0]));
            assert(t[0] == name[0]);
            assert(t =~= name + seq!['<'] + (body + seq!['>']));
            lemma_first_angle(name, body + seq!['>']);
            let k = name.len() as int;
            assert(t.take(k) =~= name);
            lemma_flat(name);
            lemma_trim_no_space(name);
            assert(t.subrange(k + 1, t.len() - 1) =~= body);
            lemma_parse_join(args);
        },
        Shape::Tuple(elems) => {
            let body = join_text(elems);
            assert(t[0] == '(');
            assert(t.subrange(1, t.len() - 1) =~= body);
            lemma_join_tidy(elems);
            lemma_trim_no_space(body);
            if elems.len() == 0 {
                assert(elems =~= Seq::<Shape>::empty());
            } else {
                lemma_parse_join(elems);
            }
        },
    }
}

/// The canonical texts of well-formed descriptors, joined by commas,
/// denote those descriptors.
pub proof fn lemma_parse_join(items: Seq<Shape>)
    requires
        all_wf(items),
        items.len() >= 1,
    ensures
        parse_list_spec(join_text(items)) == Some(items),
    decreases items, 0nat,
{
    let s = join_text(items);
    if items.len() == 1 {
        assert(items.drop_last().len() == 0);
        assert(items.last() == items[0]);
        lemma_text_tidy(items[0]);
        lemma_no_top_comma(s, s.len() as int);
        assert(s.take(s.len() as int) =~= s);
        lemma_parse_text(items[0]);
        assert(items =~= seq![items[0]]);
    } else {
        let list = join_text(items.drop_last());
        let item = items.last().text();
        lemma_join_tidy(items.drop_last());
        lemma_text_tidy(items.last());
        lemma_split(list, item, item.len() as int);
        assert(item.take(item.len() as int) =~= item);
        let k = list.len() as int;
        assert(s.take(k) =~= list);
        assert(s.skip(k + 1) =~= item);
        lemma_parse_join(items.drop_last());
        lemma_parse_text(items.last());
        assert(items.drop_last().push(items.last()) =~= items);
    }
}


/// Whatever the grammar accepts is a well-formed descriptor.
pub proof fn lemma_parse_wf(s: Seq<char>)
    ensures
        parse_spec(s) matches Some(sh) ==> sh.wf(),
    decreases s.len(), 0nat,
{
    let t = trim(s);
    lemma_trim_len(s);
    if t.len() == 0 {
    } else if t[0] == '(' {
        if t.len() >= 2 && t.last() == ')' {
            let inner = t.subrange(1, t.len() - 1);
            if trim(inner).len() != 0 {
                lemma_parse_list_wf(inner);
            }
        }
    } else if t.last() == '>' {
        let k = first_angle(t);
        if 0 <= k < t.len() - 1 {
            lemma_parse_list_wf(t.subrange(k + 1, t.len() - 1));
        }
    }
}

/// Whatever the grammar accepts as a list is a list of one or more
/// well-formed descriptors.
pub proof fn lemma_parse_list_wf(s: Seq<char>)
    ensures
        parse_list_spec(s) matches Some(items) ==> all_wf(items) && items.len() >= 1,
    decreases s.len(), 1nat,
{
    let k = last_top_comma(s);
    if 0 <= k < s.len() {
        lemma_parse_list_wf(s.take(k));
        lemma_parse_wf(s.skip(k + 1));
        if parse_list_spec(s) is Some {
            let items = parse_list_spec(s)->Some_0;
            assert(items.drop_last() =~= parse_list_spec(s.take(k))->Some_0);
        }
    } else {
        lemma_parse_wf(s);
        if parse_list_spec(s) is Some {
            let items = parse_list_spec(s)->Some_0;
            assert(items.drop_last() =~= Seq::<Shape>::empty());
            assert(all_wf(items.drop_last()));
        }
    }
}

/// Parsing, rendering and parsing again gives what parsing gave.
pub proof fn lemma_parse_idempotent(s: Seq<char>)
    ensures
        parse_spec(s) matches Some(sh) ==> parse_spec(sh.text()) == Some(sh),
{
    lemma_parse_wf(s);
    if parse_spec(s) is Some {
        lemma_parse_text(parse_spec(s)->Some_0);
    }
}


/// `s` without its whitespace.
pub open spec fn squeeze(s: Seq<char>) -> Seq<char>
    decreases s.len(),
{
    if s.len() == 0 {
        Seq::empty()
    } else if is_space(s.last()) {
        squeeze(s.drop_last())
    } else {
        squeeze(s.drop_last()).push(s.last())
    }
}

proof fn lemma_squeeze_concat(a: Seq<char>, b: Seq<char>)
    ensures
        squeeze(a + b) == squeeze(a) + squeeze(b),
    decreases b.len(),
{
    if b.len() == 0 {
        assert(a + b =~= a);
        assert(squeeze(a) + squeeze(b) =~= squeeze(a));
    } else {
        assert((a + b).drop_last() =~= a + b.drop_last());
        lemma_squeeze_concat(a, b.drop_last());
        if !is_space(b.last()) {
            assert(squeeze(a + b) =~= squeeze(a) + squeeze(b));
        }
    }
}

proof fn lemma_squeeze_one(c: char)
    ensures
        squeeze(seq![c]) == if is_space(c) {
            Seq::<char>::empty()
        } else {
            seq![c]
        },
{
    assert(seq![c].drop_last() =~= Seq::<char>::empty());
    assert(squeeze(seq![c].drop_last()) =~= Seq::<char>::empty());
    if !is_space(c) {
        assert(squeeze(seq![c]) =~= seq![c]);
    }
}

proof fn lemma_squeeze_no_space(s: Seq<char>)
    requires
        no_space(s),
    ensures
        squeeze(s) == s,
    decreases s.len(),
{
    if s.len() > 0 {
        assert(!is_space(s.last()));
        lemma_squeeze_no_space(s.drop_last());
        assert(s.drop_last().push(s.last()) =~= s);
    }
}

/// Trimming removes whitespace only.
proof fn lemma_squeeze_trim(s: Seq<char>)
    ensures
        squeeze(trim(s)) == squeeze(s),
{
    lemma_squeeze_trim_start(s);
    lemma_squeeze_trim_end(trim_start(s));
}

proof fn lemma_squeeze_trim_start(s: Seq<char>)
    ensures
        squeeze(trim_start(s)) == squeeze(s),
    decreases s.len(),
{
    if s.len() > 0 && is_space(s[0]) {
        lemma_squeeze_trim_start(s.drop_first());
        assert(s =~= seq![s[0]] + s.drop_first());
        lemma_squeeze_concat(seq![s[0]], s.drop_first());
        lemma_squeeze_one(s[0]);
        assert(Seq::<char>::empty() + squeeze(s.drop_first()) =~= squeeze(s.drop_first()));
    }
}

proof fn lemma_squeeze_trim_end(s: Seq<char>)
    ensures
        squeeze(trim_end(s)) == squeeze(s),
    decreases s.len(),
{
    if s.len() > 0 && is_space(s.last()) {
        lemma_squeeze_trim_end(s.drop_last());
    }
}

/// Where `s` has a comma outside all delimiters, the place found holds a
/// comma.
proof fn lemma_top_comma_is_comma(s: Seq<char>)
    ensures
        0 <= last_top_comma(s) ==> last_top_comma(s) < s.len() && s[last_top_comma(s)] == ',',
        -1 <= last_top_comma(s),
    decreases s.len(),
{
    if s.len() > 0 && !(s.last() == ',' && depth(s.drop_last()) == 0) {
        lemma_top_comma_is_comma(s.drop_last());
    }
}

/// Where `s` has a `<`, the place found holds it.
proof fn lemma_first_angle_is_angle(s: Seq<char>)
    ensures
        0 <= first_angle(s) <= s.len(),
        first_angle(s) < s.len() ==> s[first_angle(s)] == '<',
    decreases s.len(),
{
    if s.len() > 0 && s[0] != '<' {
        lemma_first_angle_is_angle(s.drop_first());
    }
}

/// What the grammar accepts differs from the canonical text of the
/// descriptor it denotes by whitespace only.
pub proof fn lemma_parse_sound(s: Seq<char>)
    ensures
        parse_spec(s) matches Some(sh) ==> sh.text() == squeeze(s),
    decreases s.len(), 0nat,
{
    let t = trim(s);
    lemma_trim_len(s);
    lemma_squeeze_trim(s);
    if parse_spec(s) is None {
    } else if t[0] == '(' {
        let inner = t.subrange(1, t.len() - 1);
        assert(t =~= seq!['('] + inner + seq![')']);
        lemma_squeeze_concat(seq!['('] + inner, seq![')']);
        lemma_squeeze_concat(seq!['('], inner);
        lemma_squeeze_one('(');
        lemma_squeeze_one(')');
        if trim(inner).len() == 0 {
            lemma_squeeze_trim(inner);
            assert(squeeze(trim(inner)) =~= Seq::<char>::empty());
            assert(join_text(Seq::<Shape>::empty()) =~= Seq::<char>::empty());
        } else {
            lemma_parse_list_sound(inner);
        }
    } else if t.last() == '>' {
        let k = first_angle(t);
        lemma_first_angle_is_angle(t);
        let head = t.take(k);
        let name = trim(head);
        let inner = t.subrange(k + 1, t.len() - 1);
        assert(t =~= head + seq!['<'] + inner + seq!['>']);
        lemma_squeeze_concat(head + seq!['<'] + inner, seq!['>']);
        lemma_squeeze_concat(head + seq!['<'], inner);
        lemma_squeeze_concat(head, seq!['<']);
        lemma_squeeze_one('<');
        lemma_squeeze_one('>');
        lemma_squeeze_trim(head);
        lemma_flat(name);
        lemma_squeeze_no_space(name);
        lemma_parse_list_sound(inner);
    } else {
        match Primitive::from_name_spec(t) {
            Some(p) => {
                p.lemma_name_round_trip();
                lemma_flat(t);
                lemma_squeeze_no_space(t);
            },
            None => {
                let p = Plain::from_name_spec(t)->Some_0;
                lemma_plain_name(p);
                lemma_flat(t);
                lemma_squeeze_no_space(t);
            },
        }
    }
}

/// The same, of a list.
pub proof fn lemma_parse_list_sound(s: Seq<char>)
    ensures
        parse_list_spec(s) matches Some(items) ==> join_text(items) == squeeze(s),
    decreases s.len(), 1nat,
{
    let k = last_top_comma(s);
    lemma_top_comma_is_comma(s);
    if parse_list_spec(s) is None {
    } else if 0 <= k < s.len() {
        let items = parse_list_spec(s)->Some_0;
        let head = parse_list_spec(s.take(k))->Some_0;
        let item = parse_spec(s.skip(k + 1))->Some_0;
        lemma_parse_list_sound(s.take(k));
        lemma_parse_list_wf(s.take(k));
        lemma_parse_sound(s.skip(k + 1));
        assert(s =~= s.take(k) + seq![','] + s.skip(k + 1));
        lemma_squeeze_concat(s.take(k) + seq![','], s.skip(k + 1));
        lemma_squeeze_concat(s.take(k), seq![',']);
        lemma_squeeze_one(',');
        assert(items.drop_last() =~= head);
        assert(items.last() == item);
    } else {
        let items = parse_list_spec(s)->Some_0;
        lemma_parse_sound(s);
        assert(items[0] == parse_spec(s)->Some_0);
    }
}


/// Two well-formed descriptors with the same canonical text are the same
/// descriptor.
pub proof fn lemma_text_injective(a: Shape, b: Shape)
    requires
        a.wf(),
        b.wf(),
        a.text() == b.text(),
    ensures
        a == b,
{
    lemma_parse_text(a);
    lemma_parse_text(b);
}

/// Two type names denote the same descriptor exactly when they differ by
/// whitespace only.
pub proof fn lemma_equal_up_to_whitespace(first: Seq<char>, second: Seq<char>)
    requires
        parse_spec(first) is Some,
        parse_spec(second) is Some,
    ensures
        parse_spec(first) == parse_spec(second) <==> squeeze(first) == squeeze(second),
{
    lemma_parse_sound(first);
    lemma_parse_sound(second);
    lemma_parse_wf(first);
    lemma_parse_wf(second);
    if squeeze(first) == squeeze(second) {
        lemma_text_injective(parse_spec(first)->Some_0, parse_spec(second)->Some_0);
    }
}

} // verus!
