//! The statement decoder: turns one file's text into typed statements.
//!
//! The grammar is line-oriented: a dot at the start of a line opens a
//! statement, whose keyword runs to the first whitespace. How the rest of
//! the statement's text is read depends on the keyword's schema: one
//! free-text argument, or whitespace-separated tokens that are numerals,
//! identifiers, reserved words, component lists or quoted labels. Quoted
//! tokens may span whitespace and use backslash escapes. Every decoded
//! file ends in a synthetic end-of-input marker; a file-splice directive
//! is handed back as its own item for the resolver to expand.

use vstd::prelude::*;

use crate::error::{GrammarKind, UniPenError};
use crate::lex::{
    all_digits, digits_val, digits_value, is_ws, numeral_parse, numeral_shape, numeral_shaped,
    numeral_value, range_digits, slice_eq_str, slice_range, ws_char,
};
use crate::statements::{
    keyword_of, reserved_of, schema_of, spec_keyword_of, spec_reserved_of, spec_schema_of, ArgView,
    ComponentItem, ComponentList, ComponentPoint, ComponentRange, Keyword, Point, Schema,
    Statement, StatementArgument, StatementView,
};

verus! {

/// One decoded item: a plain statement, or a splice directive naming the
/// relative path of a file whose statements take the directive's place.
pub enum DecodedItem {
    Plain(Statement),
    Splice(Vec<char>),
}

/// The mathematical value of a decoded item.
pub enum DecodedItemView {
    Plain(StatementView),
    Splice(Seq<char>),
}

impl View for DecodedItem {
    type V = DecodedItemView;

    open spec fn view(&self) -> DecodedItemView {
        match self {
            DecodedItem::Plain(s) => DecodedItemView::Plain(s@),
            DecodedItem::Splice(p) => DecodedItemView::Splice(p@),
        }
    }
}

pub open spec fn all_ws(s: Seq<char>) -> bool {
    forall|i: int| 0 <= i < s.len() ==> is_ws(#[trigger] s[i])
}

/// The first position at or after `i` where a dot opens a line.
pub open spec fn next_start_from(s: Seq<char>, i: int) -> int
    decreases s.len() - i,
{
    if i < 0 || i >= s.len() {
        s.len() as int
    } else if s[i] == '.' && (i == 0 || s[i - 1] == '\n') {
        i
    } else {
        next_start_from(s, i + 1)
    }
}

pub proof fn lemma_next_start(s: Seq<char>, i: int)
    ensures
        next_start_from(s, i) <= s.len(),
        i <= next_start_from(s, i) || (i > s.len() && next_start_from(s, i) == s.len()),
        next_start_from(s, i) < s.len() ==> {
            &&& s[next_start_from(s, i)] == '.'
            &&& (next_start_from(s, i) == 0 || s[next_start_from(s, i) - 1] == '\n')
        },
    decreases s.len() - i,
{
    if 0 <= i < s.len() && !(s[i] == '.' && (i == 0 || s[i - 1] == '\n')) {
        lemma_next_start(s, i + 1);
    }
}

/// The first whitespace position at or after `i`, or the end.
pub open spec fn bare_end(s: Seq<char>, i: int) -> int
    decreases s.len() - i,
{
    if i < 0 || i >= s.len() {
        s.len() as int
    } else if is_ws(s[i]) {
        i
    } else {
        bare_end(s, i + 1)
    }
}

pub proof fn lemma_bare_end(s: Seq<char>, i: int)
    requires
        0 <= i <= s.len(),
    ensures
        i <= bare_end(s, i) <= s.len(),
    decreases s.len() - i,
{
    if i < s.len() && !is_ws(s[i]) {
        lemma_bare_end(s, i + 1);
    }
}

/// The position after the quote that closes a quoted token opened before
/// `i`, honoring backslash escapes, or `-1` when the text ends first.
pub open spec fn quote_end(s: Seq<char>, i: int) -> int
    decreases s.len() - i,
{
    if i < 0 || i >= s.len() {
        -1
    } else if s[i] == '"' {
        i + 1
    } else if s[i] == '\\' {
        if i + 1 >= s.len() {
            -1
        } else {
            quote_end(s, i + 2)
        }
    } else {
        quote_end(s, i + 1)
    }
}

pub proof fn lemma_quote_end(s: Seq<char>, i: int)
    requires
        0 <= i,
    ensures
        quote_end(s, i) == -1 || (i < quote_end(s, i) <= s.len()),
    decreases s.len() - i,
{
    if 0 <= i < s.len() && s[i] != '"' {
        if s[i] == '\\' {
            if i + 1 < s.len() {
                lemma_quote_end(s, i + 2);
            }
        } else {
            lemma_quote_end(s, i + 1);
        }
    }
}

/// The first non-whitespace position at or after `i`, or the end.
pub open spec fn ws_end(s: Seq<char>, i: int) -> int
    decreases s.len() - i,
{
    if i < 0 || i >= s.len() {
        s.len() as int
    } else if !is_ws(s[i]) {
        i
    } else {
        ws_end(s, i + 1)
    }
}

pub proof fn lemma_ws_end(s: Seq<char>, i: int)
    requires
        0 <= i <= s.len(),
    ensures
        i <= ws_end(s, i) <= s.len(),
    decreases s.len() - i,
{
    if i < s.len() && is_ws(s[i]) {
        lemma_ws_end(s, i + 1);
    }
}

/// One past the last non-whitespace character, or zero.
pub open spec fn ws_rend(s: Seq<char>) -> int
    decreases s.len(),
{
    if s.len() == 0 {
        0
    } else if is_ws(s.last()) {
        ws_rend(s.drop_last())
    } else {
        s.len() as int
    }
}

pub proof fn lemma_ws_rend(s: Seq<char>)
    ensures
        0 <= ws_rend(s) <= s.len(),
    decreases s.len(),
{
    if s.len() > 0 && is_ws(s.last()) {
        lemma_ws_rend(s.drop_last());
    }
}

/// The text without leading and trailing whitespace.
pub open spec fn trimmed(s: Seq<char>) -> Seq<char> {
    let a = ws_end(s, 0);
    let b = ws_rend(s);
    if b <= a {
        Seq::empty()
    } else {
        s.subrange(a, b)
    }
}

/// The whitespace-separated tokens of `s` from position `i` on; a token
/// opened by a double quote runs, escapes honored, to its closing quote.
pub open spec fn tokens_from(s: Seq<char>, i: int) -> Result<Seq<Seq<char>>, UniPenError>
    decreases s.len() - i,
    via tokens_from_dec
{
    if i < 0 || i >= s.len() {
        Ok(Seq::empty())
    } else if is_ws(s[i]) {
        tokens_from(s, i + 1)
    } else if s[i] == '"' {
        let e = quote_end(s, i + 1);
        if e < 0 {
            Err(UniPenError::Grammar(GrammarKind::UnterminatedQuote))
        } else {
            match tokens_from(s, e) {
                Ok(rest) => Ok(seq![s.subrange(i, e)] + rest),
                Err(er) => Err(er),
            }
        }
    } else {
        let e = bare_end(s, i);
        match tokens_from(s, e) {
            Ok(rest) => Ok(seq![s.subrange(i, e)] + rest),
            Err(er) => Err(er),
        }
    }
}

#[via_fn]
proof fn tokens_from_dec(s: Seq<char>, i: int) {
    if 0 <= i < s.len() && !is_ws(s[i]) {
        if s[i] == '"' {
            lemma_quote_end(s, i + 1);
        } else {
            lemma_bare_end(s, i + 1);
        }
    }
}

/// Decodes quoted text: an escaped character stands for itself, except
/// `\n` and `\t`; every whitespace run collapses to one space.
pub open spec fn label_decode(s: Seq<char>) -> Seq<char> {
    label_from(s, 0)
}

/// The decoded label text from position `i` on.
pub open spec fn label_from(s: Seq<char>, i: int) -> Seq<char>
    decreases s.len() - i,
    via label_from_dec
{
    if i < 0 || i >= s.len() {
        Seq::empty()
    } else if s[i] == '\\' {
        if i + 1 >= s.len() {
            Seq::empty()
        } else {
            seq![escape_char(s[i + 1])] + label_from(s, i + 2)
        }
    } else if is_ws(s[i]) {
        seq![' '] + label_from(s, ws_end(s, i))
    } else {
        seq![s[i]] + label_from(s, i + 1)
    }
}

#[via_fn]
proof fn label_from_dec(s: Seq<char>, i: int) {
    if 0 <= i < s.len() && s[i] != '\\' && is_ws(s[i]) {
        lemma_ws_end(s, i + 1);
        assert(ws_end(s, i) == ws_end(s, i + 1));
    }
}

pub open spec fn escape_char(c: char) -> char {
    if c == 'n' {
        '\n'
    } else if c == 't' {
        '\t'
    } else {
        c
    }
}

/// Whether a token is quoted: tokens that open with a quote always carry
/// their closing quote too.
pub open spec fn is_quoted(t: Seq<char>) -> bool {
    t.len() >= 2 && t[0] == '"' && t.last() == '"'
}

pub open spec fn strip_quotes(t: Seq<char>) -> Seq<char> {
    t.subrange(1, t.len() - 1)
}

/// Numeral-schema arguments: each token is a numeral or the unknown
/// sentinel.
pub open spec fn args_nums(toks: Seq<Seq<char>>) -> Result<Seq<ArgView>, UniPenError>
    decreases toks.len(),
{
    if toks.len() == 0 {
        Ok(Seq::empty())
    } else {
        let t = toks.first();
        let a = if t == "?"@ {
            Ok(ArgView::Reserved(crate::statements::Reserved::Unknown))
        } else if numeral_shape(t) {
            match numeral_value(t) {
                Some(n) => Ok(ArgView::Number(n)),
                None => Err(UniPenError::NumeralParse),
            }
        } else {
            Err(UniPenError::Grammar(GrammarKind::BadToken))
        };
        match a {
            Ok(a) => match args_nums(toks.drop_first()) {
                Ok(rest) => Ok(seq![a] + rest),
                Err(e) => Err(e),
            },
            Err(e) => Err(e),
        }
    }
}

/// Identifier-schema arguments: quoted or bare identifiers, or the
/// unknown sentinel.
pub open spec fn args_strs(toks: Seq<Seq<char>>) -> Result<Seq<ArgView>, UniPenError>
    decreases toks.len(),
{
    if toks.len() == 0 {
        Ok(Seq::empty())
    } else {
        let t = toks.first();
        let a = if t == "?"@ {
            ArgView::Reserved(crate::statements::Reserved::Unknown)
        } else if is_quoted(t) {
            ArgView::Str(strip_quotes(t))
        } else {
            ArgView::Str(t)
        };
        match args_strs(toks.drop_first()) {
            Ok(rest) => Ok(seq![a] + rest),
            Err(e) => Err(e),
        }
    }
}

/// Reserved-word-schema arguments.
pub open spec fn args_resvds(toks: Seq<Seq<char>>) -> Result<Seq<ArgView>, UniPenError>
    decreases toks.len(),
{
    if toks.len() == 0 {
        Ok(Seq::empty())
    } else {
        match spec_reserved_of(toks.first()) {
            Some(rw) => match args_resvds(toks.drop_first()) {
                Ok(rest) => Ok(seq![ArgView::Reserved(rw)] + rest),
                Err(e) => Err(e),
            },
            None => Err(UniPenError::Grammar(GrammarKind::BadToken)),
        }
    }
}

/// A digit run as an index, when it fits the machine's index range.
pub open spec fn index_of(t: Seq<char>) -> Option<usize> {
    if t.len() > 0 && all_digits(t) {
        if digits_val(t) <= i64::MAX && digits_val(t) <= usize::MAX {
            Some(digits_val(t) as usize)
        } else {
            None
        }
    } else {
        None
    }
}

/// One component point: `digits`, `digits:digits`, or `digits:ALL`.
pub open spec fn point_of(t: Seq<char>) -> Option<ComponentPoint> {
    let c = colon_index(t);
    if c < 0 {
        match index_of(t) {
            Some(comp) => Some(ComponentPoint { component: comp, point: Point::All }),
            None => None,
        }
    } else {
        match index_of(t.take(c)) {
            Some(comp) => {
                let after = t.skip(c + 1);
                if after == "ALL"@ {
                    Some(ComponentPoint { component: comp, point: Point::All })
                } else {
                    match index_of(after) {
                        Some(n) => Some(
                            ComponentPoint { component: comp, point: Point::Index(n) },
                        ),
                        None => None,
                    }
                }
            },
            None => None,
        }
    }
}

/// The first colon in a token, or `-1`.
pub open spec fn colon_index(s: Seq<char>) -> int
    decreases s.len(),
{
    if s.len() == 0 {
        -1
    } else if s[0] == ':' {
        0
    } else if colon_index(s.skip(1)) < 0 {
        -1
    } else {
        colon_index(s.skip(1)) + 1
    }
}

pub proof fn lemma_colon_index(s: Seq<char>)
    ensures
        colon_index(s) == -1 ==> forall|i: int| 0 <= i < s.len() ==> s[i] != ':',
        colon_index(s) >= 0 ==> {
            &&& colon_index(s) < s.len()
            &&& s[colon_index(s)] == ':'
            &&& forall|i: int| 0 <= i < colon_index(s) ==> s[i] != ':'
        },
    decreases s.len(),
{
    if s.len() > 0 && s[0] != ':' {
        lemma_colon_index(s.skip(1));
        let d1 = colon_index(s.skip(1));
        if d1 >= 0 {
            assert(s.skip(1)[d1] == s[d1 + 1]);
            assert forall|i: int| 0 <= i < d1 + 1 implies s[i] != ':' by {
                if i > 0 {
                    assert(s.skip(1)[i - 1] == s[i]);
                }
            }
        } else {
            assert forall|i: int| 0 <= i < s.len() implies s[i] != ':' by {
                if i > 0 {
                    assert(s.skip(1)[i - 1] == s[i]);
                }
            }
        }
    }
}

/// The first `..` in a token, or `-1`.
pub open spec fn dots_index(s: Seq<char>) -> int
    decreases s.len(),
{
    if s.len() < 2 {
        -1
    } else if s[0] == '.' && s[1] == '.' {
        0
    } else if dots_index(s.skip(1)) < 0 {
        -1
    } else {
        dots_index(s.skip(1)) + 1
    }
}

pub proof fn lemma_dots_index(s: Seq<char>)
    ensures
        dots_index(s) == -1 ==> forall|i: int|
            0 <= i < s.len() - 1 ==> !(#[trigger] s[i] == '.' && s[i + 1] == '.'),
        dots_index(s) >= 0 ==> {
            &&& dots_index(s) + 1 < s.len()
            &&& s[dots_index(s)] == '.'
            &&& s[dots_index(s) + 1] == '.'
            &&& forall|i: int| 0 <= i < dots_index(s) ==> !(#[trigger] s[i] == '.' && s[i + 1] == '.')
        },
    decreases s.len(),
{
    if s.len() >= 2 && !(s[0] == '.' && s[1] == '.') {
        lemma_dots_index(s.skip(1));
        let d1 = dots_index(s.skip(1));
        if d1 >= 0 {
            assert(s.skip(1)[d1] == s[d1 + 1]);
            assert(s.skip(1)[d1 + 1] == s[d1 + 2]);
            assert forall|i: int| 0 <= i < d1 + 1 implies !(#[trigger] s[i] == '.' && s[i + 1] == '.') by {
                if i > 0 {
                    assert(s.skip(1)[i - 1] == s[i]);
                    assert(s.skip(1)[i] == s[i + 1]);
                }
            }
        } else {
            assert forall|i: int| 0 <= i < s.len() - 1 implies !(#[trigger] s[i] == '.' && s[i + 1] == '.') by {
                if i > 0 {
                    assert(s.skip(1)[i - 1] == s[i]);
                    assert(s.skip(1)[i] == s[i + 1]);
                }
            }
        }
    }
}

/// One component-list item: a point, or two points joined by `..`.
pub open spec fn item_of(t: Seq<char>) -> Option<ComponentItem> {
    let d = dots_index(t);
    if d < 0 {
        match point_of(t) {
            Some(p) => Some(ComponentItem::Single(p)),
            None => None,
        }
    } else {
        match point_of(t.take(d)) {
            Some(ps) => match point_of(t.skip(d + 2)) {
                Some(pe) => Some(
                    ComponentItem::Range(ComponentRange { start: ps, end: pe }),
                ),
                None => None,
            },
            None => None,
        }
    }
}

/// A comma-separated component list.
pub open spec fn clist_of(t: Seq<char>) -> Option<Seq<ComponentItem>>
    decreases t.len(),
    via clist_of_dec
{
    let c = comma_index(t);
    if c < 0 {
        match item_of(t) {
            Some(item) => Some(seq![item]),
            None => None,
        }
    } else {
        match item_of(t.take(c)) {
            Some(item) => match clist_of(t.skip(c + 1)) {
                Some(rest) => Some(seq![item] + rest),
                None => None,
            },
            None => None,
        }
    }
}

#[via_fn]
proof fn clist_of_dec(t: Seq<char>) {
    lemma_comma_index(t);
}

/// The first comma in a token, or `-1`.
pub open spec fn comma_index(s: Seq<char>) -> int
    decreases s.len(),
{
    if s.len() == 0 {
        -1
    } else if s[0] == ',' {
        0
    } else if comma_index(s.skip(1)) < 0 {
        -1
    } else {
        comma_index(s.skip(1)) + 1
    }
}

pub proof fn lemma_comma_index(s: Seq<char>)
    ensures
        comma_index(s) == -1 ==> forall|i: int| 0 <= i < s.len() ==> s[i] != ',',
        comma_index(s) >= 0 ==> {
            &&& comma_index(s) < s.len()
            &&& s[comma_index(s)] == ','
            &&& forall|i: int| 0 <= i < comma_index(s) ==> s[i] != ','
        },
    decreases s.len(),
{
    if s.len() > 0 && s[0] != ',' {
        lemma_comma_index(s.skip(1));
        let d1 = comma_index(s.skip(1));
        if d1 >= 0 {
            assert(s.skip(1)[d1] == s[d1 + 1]);
            assert forall|i: int| 0 <= i < d1 + 1 implies s[i] != ',' by {
                if i > 0 {
                    assert(s.skip(1)[i - 1] == s[i]);
                }
            }
        } else {
            assert forall|i: int| 0 <= i < s.len() implies s[i] != ',' by {
                if i > 0 {
                    assert(s.skip(1)[i - 1] == s[i]);
                }
            }
        }
    }
}

/// Segment-schema arguments: an identifier, a component list, then an
/// optional reserved quality word and an optional quoted label.
pub open spec fn args_seg(toks: Seq<Seq<char>>) -> Result<Seq<ArgView>, UniPenError> {
    if toks.len() < 2 || toks.len() > 4 {
        Err(UniPenError::Grammar(GrammarKind::BadToken))
    } else {
        let name = if is_quoted(toks[0]) {
            ArgView::Str(strip_quotes(toks[0]))
        } else {
            ArgView::Str(toks[0])
        };
        match clist_of(toks[1]) {
            Some(items) => {
                let head = seq![name, ArgView::List(items)];
                match trailing_seg_args(toks.skip(2)) {
                    Ok(tail) => Ok(head + tail),
                    Err(e) => Err(e),
                }
            },
            None => Err(UniPenError::Grammar(GrammarKind::BadToken)),
        }
    }
}

/// The optional trailing segment arguments: each is a quoted label or a
/// reserved word.
pub open spec fn trailing_seg_args(toks: Seq<Seq<char>>) -> Result<Seq<ArgView>, UniPenError>
    decreases toks.len(),
{
    if toks.len() == 0 {
        Ok(Seq::empty())
    } else {
        let t = toks.first();
        let a = if is_quoted(t) {
            Some(ArgView::Label(label_decode(strip_quotes(t))))
        } else {
            match spec_reserved_of(t) {
                Some(rw) => Some(ArgView::Reserved(rw)),
                None => None,
            }
        };
        match a {
            Some(a) => match trailing_seg_args(toks.drop_first()) {
                Ok(rest) => Ok(seq![a] + rest),
                Err(e) => Err(e),
            },
            None => Err(UniPenError::Grammar(GrammarKind::BadToken)),
        }
    }
}

/// Decodes one statement's text, the dot included, into one item.
pub open spec fn decode_seg(seg: Seq<char>) -> Result<DecodedItemView, UniPenError> {
    let ke = bare_end(seg, 1);
    let kw = seg.subrange(1, ke);
    match spec_keyword_of(kw) {
        None => Err(UniPenError::Grammar(GrammarKind::UnknownKeyword)),
        Some(k) => {
            let rest = seg.skip(ke);
            match spec_schema_of(k) {
                Schema::Free => {
                    let t = trimmed(rest);
                    Ok(DecodedItemView::Plain(StatementView {
                        keyword: k,
                        arguments: if t.len() == 0 {
                            Seq::empty()
                        } else {
                            seq![ArgView::FreeText(t)]
                        },
                    }))
                },
                Schema::Nums => match tokens_from(rest, 0) {
                    Ok(toks) => match args_nums(toks) {
                        Ok(a) => Ok(DecodedItemView::Plain(
                            StatementView { keyword: k, arguments: a },
                        )),
                        Err(e) => Err(e),
                    },
                    Err(e) => Err(e),
                },
                Schema::Strs => match tokens_from(rest, 0) {
                    Ok(toks) => match args_strs(toks) {
                        Ok(a) => Ok(DecodedItemView::Plain(
                            StatementView { keyword: k, arguments: a },
                        )),
                        Err(e) => Err(e),
                    },
                    Err(e) => Err(e),
                },
                Schema::Resvds => match tokens_from(rest, 0) {
                    Ok(toks) => match args_resvds(toks) {
                        Ok(a) => Ok(DecodedItemView::Plain(
                            StatementView { keyword: k, arguments: a },
                        )),
                        Err(e) => Err(e),
                    },
                    Err(e) => Err(e),
                },
                Schema::Seg => match tokens_from(rest, 0) {
                    Ok(toks) => match args_seg(toks) {
                        Ok(a) => Ok(DecodedItemView::Plain(
                            StatementView { keyword: k, arguments: a },
                        )),
                        Err(e) => Err(e),
                    },
                    Err(e) => Err(e),
                },
                Schema::Splice => match tokens_from(rest, 0) {
                    Ok(toks) => {
                        if toks.len() != 1 {
                            Err(UniPenError::Grammar(GrammarKind::BadToken))
                        } else if is_quoted(toks[0]) {
                            Ok(DecodedItemView::Splice(strip_quotes(toks[0])))
                        } else {
                            Ok(DecodedItemView::Splice(toks[0]))
                        }
                    },
                    Err(e) => Err(e),
                },
            }
        },
    }
}

/// Decodes every statement from position `i`, each segment running from
/// its line-start dot to the next.
pub open spec fn decode_segs(s: Seq<char>, i: int) -> Result<Seq<DecodedItemView>, UniPenError>
    decreases s.len() - i,
    via decode_segs_dec
{
    if i < 0 || i >= s.len() {
        Ok(Seq::empty())
    } else {
        let j = next_start_from(s, i + 1);
        match decode_seg(s.subrange(i, j)) {
            Ok(item) => match decode_segs(s, j) {
                Ok(rest) => Ok(seq![item] + rest),
                Err(e) => Err(e),
            },
            Err(e) => Err(e),
        }
    }
}

#[via_fn]
proof fn decode_segs_dec(s: Seq<char>, i: int) {
    if 0 <= i < s.len() {
        lemma_next_start(s, i + 1);
    }
}

/// The synthetic end-of-input marker that closes every decoded file.
pub open spec fn eoi_view() -> DecodedItemView {
    DecodedItemView::Plain(StatementView { keyword: Keyword::EndOfInput, arguments: Seq::empty() })
}

/// The exact decoding of one file's text: its statements in order,
/// splice directives as their own items, and the end-of-input marker
/// last. Text before the first statement must be all whitespace.
pub open spec fn spec_decode(s: Seq<char>) -> Result<Seq<DecodedItemView>, UniPenError> {
    let f = next_start_from(s, 0);
    if !all_ws(s.take(f)) {
        Err(UniPenError::Grammar(GrammarKind::LeadingText))
    } else {
        match decode_segs(s, f) {
            Ok(items) => Ok(items.push(eoi_view())),
            Err(e) => Err(e),
        }
    }
}

/// A fresh vector holding `v[from..to)`.
pub fn vec_range(v: &Vec<char>, from: usize, to: usize) -> (r: Vec<char>)
    requires
        from <= to <= v@.len(),
    ensures
        r@ == v@.subrange(from as int, to as int),
{
    let mut r: Vec<char> = Vec::new();
    proof {
        assert(r@ =~= v@.subrange(from as int, from as int));
    }
    let mut i: usize = from;
    while i < to
        invariant
            from <= i <= to <= v@.len(),
            r@ == v@.subrange(from as int, i as int),
        decreases to - i,
    {
        r.push(v[i]);
        proof {
            assert(r@ =~= v@.subrange(from as int, i as int + 1));
        }
        i += 1;
    }
    r
}

/// Finds the next line-start dot at or after `i`.
pub fn next_start_exec(v: &Vec<char>, i: usize) -> (r: usize)
    requires
        i <= v@.len(),
    ensures
        r as int == next_start_from(v@, i as int),
        i <= r <= v@.len(),
{
    let n = v.len();
    let mut j = i;
    while j < n
        invariant
            i <= j <= n,
            n == v@.len(),
            next_start_from(v@, i as int) == next_start_from(v@, j as int),
        decreases n - j,
    {
        if v[j] == '.' && (j == 0 || v[j - 1] == '\n') {
            return j;
        }
        j += 1;
    }
    j
}

/// Finds the first whitespace at or after `i`.
fn bare_end_exec(v: &Vec<char>, i: usize) -> (r: usize)
    requires
        i <= v@.len(),
    ensures
        r as int == bare_end(v@, i as int),
        i <= r <= v@.len(),
{
    let n = v.len();
    let mut j = i;
    while j < n
        invariant
            i <= j <= n,
            n == v@.len(),
            bare_end(v@, i as int) == bare_end(v@, j as int),
        decreases n - j,
    {
        if ws_char(v[j]) {
            return j;
        }
        j += 1;
    }
    j
}

/// Finds the first non-whitespace at or after `i`.
fn ws_end_exec(v: &Vec<char>, i: usize) -> (r: usize)
    requires
        i <= v@.len(),
    ensures
        r as int == ws_end(v@, i as int),
        i <= r <= v@.len(),
{
    let n = v.len();
    let mut j = i;
    while j < n
        invariant
            i <= j <= n,
            n == v@.len(),
            ws_end(v@, i as int) == ws_end(v@, j as int),
        decreases n - j,
    {
        if !ws_char(v[j]) {
            return j;
        }
        j += 1;
    }
    j
}

/// Finds one past the last non-whitespace character.
fn ws_rend_exec(v: &Vec<char>) -> (r: usize)
    ensures
        r as int == ws_rend(v@),
{
    let mut j = v.len();
    proof {
        assert(v@.take(v@.len() as int) =~= v@);
    }
    while j > 0
        invariant
            j <= v@.len(),
            ws_rend(v@) == ws_rend(v@.take(j as int)),
        decreases j,
    {
        proof {
            assert(v@.take(j as int).last() == v@[j as int - 1]);
            assert(v@.take(j as int).drop_last() =~= v@.take(j as int - 1));
        }
        if !ws_char(v[j - 1]) {
            return j;
        }
        j -= 1;
    }
    0
}

/// Finds the close of a quoted token opened before `i`.
fn quote_end_exec(v: &Vec<char>, i: usize) -> (r: Option<usize>)
    requires
        i <= v@.len(),
    ensures
        match r {
            Some(e) => quote_end(v@, i as int) == e as int && i < e <= v@.len(),
            None => quote_end(v@, i as int) == -1,
        },
{
    let n = v.len();
    let mut j = i;
    while j < n
        invariant
            i <= j <= n,
            n == v@.len(),
            quote_end(v@, i as int) == quote_end(v@, j as int),
        decreases n - j,
    {
        if v[j] == '"' {
            return Some(j + 1);
        }
        if v[j] == '\\' {
            if j + 1 >= n {
                return None;
            }
            j += 2;
        } else {
            j += 1;
        }
    }
    None
}

/// The text without leading and trailing whitespace.
fn trimmed_exec(v: &Vec<char>) -> (r: Vec<char>)
    ensures
        r@ == trimmed(v@),
{
    let a = ws_end_exec(v, 0);
    let b = ws_rend_exec(v);
    proof {
        lemma_ws_rend(v@);
    }
    if b <= a {
        let r: Vec<char> = Vec::new();
        proof {
            assert(r@ =~= Seq::<char>::empty());
        }
        r
    } else {
        vec_range(v, a, b)
    }
}

/// Splits text into tokens, quote-aware.
fn tokens_exec(v: &Vec<char>) -> (r: Result<Vec<Vec<char>>, UniPenError>)
    ensures
        match r {
            Ok(toks) => tokens_from(v@, 0) == Ok::<Seq<Seq<char>>, UniPenError>(
                toks@.map_values(|t: Vec<char>| t@),
            ),
            Err(e) => tokens_from(v@, 0) == Err::<Seq<Seq<char>>, UniPenError>(e),
        },
{
    let n = v.len();
    let mut out: Vec<Vec<char>> = Vec::new();
    let mut i: usize = 0;
    proof {
        assert(out@.map_values(|t: Vec<char>| t@) =~= Seq::<Seq<char>>::empty());
        if let Ok(rest) = tokens_from(v@, 0) {
            assert(Seq::<Seq<char>>::empty() + rest =~= rest);
        }
    }
    while i < n
        invariant
            i <= n,
            n == v@.len(),
            match tokens_from(v@, i as int) {
                Ok(rest) => tokens_from(v@, 0) == Ok::<Seq<Seq<char>>, UniPenError>(
                    out@.map_values(|t: Vec<char>| t@) + rest,
                ),
                Err(e) => tokens_from(v@, 0) == Err::<Seq<Seq<char>>, UniPenError>(e),
            },
        decreases n - i,
    {
        let c = v[i];
        if ws_char(c) {
            i += 1;
        } else if c == '"' {
            match quote_end_exec(v, i + 1) {
                None => {
                    return Err(UniPenError::Grammar(GrammarKind::UnterminatedQuote));
                }
                Some(e) => {
                    let tok = vec_range(v, i, e);
                    let ghost old_views = out@.map_values(|t: Vec<char>| t@);
                    let ghost tv = tok@;
                    out.push(tok);
                    proof {
                        assert(out@.map_values(|t: Vec<char>| t@) =~= old_views.push(tv));
                        if let Ok(rest2) = tokens_from(v@, e as int) {
                            assert(old_views.push(tv) + rest2 =~= old_views + (seq![tv] + rest2));
                        }
                    }
                    i = e;
                }
            }
        } else {
            let e = bare_end_exec(v, i);
            proof {
                lemma_bare_end(v@, i as int + 1);
                assert(bare_end(v@, i as int) == bare_end(v@, i as int + 1));
            }
            let tok = vec_range(v, i, e);
            let ghost old_views = out@.map_values(|t: Vec<char>| t@);
            let ghost tv = tok@;
            out.push(tok);
            proof {
                assert(out@.map_values(|t: Vec<char>| t@) =~= old_views.push(tv));
                if let Ok(rest2) = tokens_from(v@, e as int) {
                    assert(old_views.push(tv) + rest2 =~= old_views + (seq![tv] + rest2));
                }
            }
            i = e;
        }
    }
    proof {
        if let Ok(rest) = tokens_from(v@, n as int) {
            assert(out@.map_values(|t: Vec<char>| t@) + rest
                =~= out@.map_values(|t: Vec<char>| t@));
        }
    }
    Ok(out)
}

fn escape_exec(c: char) -> (r: char)
    ensures
        r == escape_char(c),
{
    if c == 'n' {
        '\n'
    } else if c == 't' {
        '\t'
    } else {
        c
    }
}

/// Decodes quoted text, quotes already stripped.
fn label_exec(v: &Vec<char>) -> (r: Vec<char>)
    ensures
        r@ == label_decode(v@),
{
    let n = v.len();
    let mut out: Vec<char> = Vec::new();
    let mut i: usize = 0;
    proof {
        assert(out@ + label_from(v@, 0) =~= label_from(v@, 0));
    }
    while i < n
        invariant
            i <= n,
            n == v@.len(),
            label_from(v@, 0) == out@ + label_from(v@, i as int),
        decreases n - i,
    {
        let c = v[i];
        let ghost old_out = out@;
        if c == '\\' {
            if i + 1 >= n {
                proof {
                    assert(out@ + label_from(v@, i as int) =~= out@);
                }
                return out;
            }
            out.push(escape_exec(v[i + 1]));
            proof {
                assert(old_out + (seq![escape_char(v@[i as int + 1])] + label_from(v@, i as int + 2))
                    =~= out@ + label_from(v@, i as int + 2));
            }
            i += 2;
        } else if ws_char(c) {
            out.push(' ');
            let e = ws_end_exec(v, i);
            proof {
                lemma_ws_end(v@, i as int + 1);
                assert(ws_end(v@, i as int) == ws_end(v@, i as int + 1));
                assert(old_out + (seq![' '] + label_from(v@, e as int))
                    =~= out@ + label_from(v@, e as int));
            }
            i = e;
        } else {
            out.push(c);
            proof {
                assert(old_out + (seq![v@[i as int]] + label_from(v@, i as int + 1))
                    =~= out@ + label_from(v@, i as int + 1));
            }
            i += 1;
        }
    }
    proof {
        assert(out@ + label_from(v@, n as int) =~= out@);
    }
    out
}

/// Whether a token carries enclosing quotes.
fn is_quoted_exec(t: &Vec<char>) -> (r: bool)
    ensures
        r == is_quoted(t@),
{
    t.len() >= 2 && t[0] == '"' && t[t.len() - 1] == '"'
}

/// A digit-run token as an index.
fn index_exec(v: &Vec<char>) -> (r: Option<usize>)
    ensures
        r == index_of(v@),
{
    let n = v.len();
    if n == 0 {
        return None;
    }
    let s = v.as_slice();
    proof {
        assert(s@.subrange(0, n as int) =~= v@);
    }
    if !range_digits(s, 0, n) {
        return None;
    }
    match digits_value(s) {
        None => None,
        Some(val) => {
            if val <= usize::MAX as u64 {
                Some(val as usize)
            } else {
                None
            }
        }
    }
}

/// Finds the first colon.
fn find_colon_exec(v: &Vec<char>) -> (r: Option<usize>)
    ensures
        match r {
            Some(p) => colon_index(v@) == p as int,
            None => colon_index(v@) == -1,
        },
{
    let n = v.len();
    let mut j: usize = 0;
    while j < n
        invariant
            j <= n,
            n == v@.len(),
            forall|k: int| 0 <= k < j ==> v@[k] != ':',
        decreases n - j,
    {
        if v[j] == ':' {
            proof {
                lemma_colon_index(v@);
            }
            return Some(j);
        }
        j += 1;
    }
    proof {
        lemma_colon_index(v@);
    }
    None
}

/// Finds the first pair of adjacent dots.
fn find_dots_exec(v: &Vec<char>) -> (r: Option<usize>)
    ensures
        match r {
            Some(p) => dots_index(v@) == p as int,
            None => dots_index(v@) == -1,
        },
{
    let n = v.len();
    if n < 2 {
        proof {
            lemma_dots_index(v@);
        }
        return None;
    }
    let mut j: usize = 0;
    while j < n - 1
        invariant
            j <= n,
            2 <= n,
            n == v@.len(),
            forall|k: int| 0 <= k < j ==> !(#[trigger] v@[k] == '.' && v@[k + 1] == '.'),
        decreases n - j,
    {
        if v[j] == '.' && v[j + 1] == '.' {
            proof {
                lemma_dots_index(v@);
            }
            return Some(j);
        }
        j += 1;
    }
    proof {
        lemma_dots_index(v@);
    }
    None
}

/// Parses one component point.
fn point_exec(v: &Vec<char>) -> (r: Option<ComponentPoint>)
    ensures
        r == point_of(v@),
{
    match find_colon_exec(v) {
        None => {
            match index_exec(v) {
                Some(comp) => Some(ComponentPoint { component: comp, point: Point::All }),
                None => None,
            }
        }
        Some(p) => {
            let nv = v.len();
            proof {
                lemma_colon_index(v@);
                assert(p < nv);
            }
            let head = vec_range(v, 0, p);
            proof {
                assert(head@ =~= v@.take(p as int));
            }
            match index_exec(&head) {
                None => None,
                Some(comp) => {
                    let after = vec_range(v, p + 1, v.len());
                    proof {
                        assert(after@ =~= v@.skip(p as int + 1));
                    }
                    if slice_eq_str(after.as_slice(), "ALL") {
                        Some(ComponentPoint { component: comp, point: Point::All })
                    } else {
                        match index_exec(&after) {
                            Some(nn) => Some(
                                ComponentPoint { component: comp, point: Point::Index(nn) },
                            ),
                            None => None,
                        }
                    }
                }
            }
        }
    }
}

/// Parses one component-list item.
fn item_exec(v: &Vec<char>) -> (r: Option<ComponentItem>)
    ensures
        r == item_of(v@),
{
    match find_dots_exec(v) {
        None => {
            match point_exec(v) {
                Some(p) => Some(ComponentItem::Single(p)),
                None => None,
            }
        }
        Some(d) => {
            let nv = v.len();
            proof {
                lemma_dots_index(v@);
                assert(d + 1 < nv);
            }
            let head = vec_range(v, 0, d);
            let tail = vec_range(v, d + 2, v.len());
            proof {
                assert(head@ =~= v@.take(d as int));
                assert(tail@ =~= v@.skip(d as int + 2));
            }
            match point_exec(&head) {
                Some(ps) => match point_exec(&tail) {
                    Some(pe) => Some(ComponentItem::Range(ComponentRange { start: ps, end: pe })),
                    None => None,
                },
                None => None,
            }
        }
    }
}

/// Finds the first comma.
fn find_comma_exec(v: &Vec<char>) -> (r: Option<usize>)
    ensures
        match r {
            Some(p) => comma_index(v@) == p as int,
            None => comma_index(v@) == -1,
        },
{
    let n = v.len();
    let mut j: usize = 0;
    while j < n
        invariant
            j <= n,
            n == v@.len(),
            forall|k: int| 0 <= k < j ==> v@[k] != ',',
        decreases n - j,
    {
        if v[j] == ',' {
            proof {
                lemma_comma_index(v@);
            }
            return Some(j);
        }
        j += 1;
    }
    proof {
        lemma_comma_index(v@);
    }
    None
}

/// Parses a comma-separated component list.
#[verifier::loop_isolation(false)]
fn clist_exec(t: &Vec<char>) -> (r: Option<Vec<ComponentItem>>)
    ensures
        match r {
            Some(items) => clist_of(t@) == Some(items@),
            None => clist_of(t@) == None::<Seq<ComponentItem>>,
        },
{
    let ghost orig = t@;
    let mut cur = vec_range(t, 0, t.len());
    proof {
        assert(cur@ =~= orig);
    }
    let mut done: Vec<ComponentItem> = Vec::new();
    proof {
        if let Some(rest) = clist_of(cur@) {
            assert(done@ + rest =~= rest);
        }
    }
    loop
        invariant
            match clist_of(cur@) {
                Some(rest) => clist_of(orig) == Some(done@ + rest),
                None => clist_of(orig) == None::<Seq<ComponentItem>>,
            },
        decreases cur@.len(),
    {
        match find_comma_exec(&cur) {
            None => {
                match item_exec(&cur) {
                    Some(item) => {
                        let ghost old_done = done@;
                        done.push(item);
                        proof {
                            assert(old_done + seq![item] =~= done@);
                        }
                        return Some(done);
                    }
                    None => {
                        return None;
                    }
                }
            }
            Some(c) => {
                proof {
                    lemma_comma_index(cur@);
                }
                let part = vec_range(&cur, 0, c);
                proof {
                    assert(part@ =~= cur@.take(c as int));
                }
                match item_exec(&part) {
                    None => {
                        return None;
                    }
                    Some(item) => {
                        let rest = vec_range(&cur, c + 1, cur.len());
                        proof {
                            assert(rest@ =~= cur@.skip(c as int + 1));
                        }
                        let ghost old_done = done@;
                        done.push(item);
                        proof {
                            if let Some(rest2) = clist_of(rest@) {
                                assert(old_done + (seq![item] + rest2) =~= done@ + rest2);
                            }
                        }
                        cur = rest;
                    }
                }
            }
        }
    }
}

/// Decodes numeral-schema arguments.
fn args_nums_exec(toks: &Vec<Vec<char>>) -> (r: Result<Vec<StatementArgument>, UniPenError>)
    ensures
        match r {
            Ok(a) => args_nums(toks@.map_values(|t: Vec<char>| t@)) == Ok::<Seq<ArgView>, UniPenError>(
                a@.map_values(|x: StatementArgument| x@),
            ),
            Err(e) => args_nums(toks@.map_values(|t: Vec<char>| t@)) == Err::<
                Seq<ArgView>,
                UniPenError,
            >(e),
        },
{
    let ghost tv = toks@.map_values(|t: Vec<char>| t@);
    let mut out: Vec<StatementArgument> = Vec::new();
    let n = toks.len();
    let mut i: usize = 0;
    proof {
        assert(tv.skip(0) =~= tv);
        assert(out@.map_values(|x: StatementArgument| x@) =~= Seq::<ArgView>::empty());
        if let Ok(rest) = args_nums(tv) {
            assert(Seq::<ArgView>::empty() + rest =~= rest);
        }
    }
    while i < n
        invariant
            i <= n,
            n == toks@.len(),
            tv == toks@.map_values(|t: Vec<char>| t@),
            match args_nums(tv.skip(i as int)) {
                Ok(rest) => args_nums(tv) == Ok::<Seq<ArgView>, UniPenError>(
                    out@.map_values(|x: StatementArgument| x@) + rest,
                ),
                Err(e) => args_nums(tv) == Err::<Seq<ArgView>, UniPenError>(e),
            },
        decreases n - i,
    {
        proof {
            assert(tv.skip(i as int).first() == tv[i as int]);
            assert(tv.skip(i as int).drop_first() =~= tv.skip(i as int + 1));
        }
        let t = &toks[i];
        let arg: StatementArgument = if slice_eq_str(t.as_slice(), "?") {
            StatementArgument::Reserved(crate::statements::Reserved::Unknown)
        } else if numeral_shaped(t.as_slice()) {
            match numeral_parse(t.as_slice()) {
                Some(nu) => StatementArgument::Number(nu),
                None => {
                    return Err(UniPenError::NumeralParse);
                }
            }
        } else {
            return Err(UniPenError::Grammar(GrammarKind::BadToken));
        };
        let ghost old_views = out@.map_values(|x: StatementArgument| x@);
        let ghost av = arg@;
        out.push(arg);
        proof {
            assert(out@.map_values(|x: StatementArgument| x@) =~= old_views.push(av));
            if let Ok(rest2) = args_nums(tv.skip(i as int + 1)) {
                assert(old_views.push(av) + rest2 =~= old_views + (seq![av] + rest2));
            }
        }
        i += 1;
    }
    proof {
        assert(tv.skip(n as int) =~= Seq::<Seq<char>>::empty());
        assert(out@.map_values(|x: StatementArgument| x@) + Seq::<ArgView>::empty()
            =~= out@.map_values(|x: StatementArgument| x@));
    }
    Ok(out)
}

/// Decodes identifier-schema arguments.
fn args_strs_exec(toks: &Vec<Vec<char>>) -> (r: Result<Vec<StatementArgument>, UniPenError>)
    ensures
        match r {
            Ok(a) => args_strs(toks@.map_values(|t: Vec<char>| t@)) == Ok::<Seq<ArgView>, UniPenError>(
                a@.map_values(|x: StatementArgument| x@),
            ),
            Err(e) => args_strs(toks@.map_values(|t: Vec<char>| t@)) == Err::<
                Seq<ArgView>,
                UniPenError,
            >(e),
        },
{
    let ghost tv = toks@.map_values(|t: Vec<char>| t@);
    let mut out: Vec<StatementArgument> = Vec::new();
    let n = toks.len();
    let mut i: usize = 0;
    proof {
        assert(tv.skip(0) =~= tv);
        assert(out@.map_values(|x: StatementArgument| x@) =~= Seq::<ArgView>::empty());
        if let Ok(rest) = args_strs(tv) {
            assert(Seq::<ArgView>::empty() + rest =~= rest);
        }
    }
    while i < n
        invariant
            i <= n,
            n == toks@.len(),
            tv == toks@.map_values(|t: Vec<char>| t@),
            match args_strs(tv.skip(i as int)) {
                Ok(rest) => args_strs(tv) == Ok::<Seq<ArgView>, UniPenError>(
                    out@.map_values(|x: StatementArgument| x@) + rest,
                ),
                Err(e) => args_strs(tv) == Err::<Seq<ArgView>, UniPenError>(e),
            },
        decreases n - i,
    {
        proof {
            assert(tv.skip(i as int).first() == tv[i as int]);
            assert(tv.skip(i as int).drop_first() =~= tv.skip(i as int + 1));
        }
        let t = &toks[i];
        let arg: StatementArgument = if slice_eq_str(t.as_slice(), "?") {
            StatementArgument::Reserved(crate::statements::Reserved::Unknown)
        } else if is_quoted_exec(t) {
            let inner = vec_range(t, 1, t.len() - 1);
            proof {
                assert(inner@ =~= strip_quotes(t@));
            }
            StatementArgument::String(inner)
        } else {
            StatementArgument::String(vec_range(t, 0, t.len()))
        };
        proof {
            assert(vec_range_full_lemma(t@));
        }
        let ghost old_views = out@.map_values(|x: StatementArgument| x@);
        let ghost av = arg@;
        out.push(arg);
        proof {
            assert(out@.map_values(|x: StatementArgument| x@) =~= old_views.push(av));
            if let Ok(rest2) = args_strs(tv.skip(i as int + 1)) {
                assert(old_views.push(av) + rest2 =~= old_views + (seq![av] + rest2));
            }
        }
        i += 1;
    }
    proof {
        assert(tv.skip(n as int) =~= Seq::<Seq<char>>::empty());
        assert(out@.map_values(|x: StatementArgument| x@) + Seq::<ArgView>::empty()
            =~= out@.map_values(|x: StatementArgument| x@));
    }
    Ok(out)
}

/// A full-width subrange is the sequence itself.
pub open spec fn vec_range_full_lemma(s: Seq<char>) -> bool {
    s.subrange(0, s.len() as int) =~= s
}

/// Decodes reserved-word-schema arguments.
fn args_resvds_exec(toks: &Vec<Vec<char>>) -> (r: Result<Vec<StatementArgument>, UniPenError>)
    ensures
        match r {
            Ok(a) => args_resvds(toks@.map_values(|t: Vec<char>| t@)) == Ok::<
                Seq<ArgView>,
                UniPenError,
            >(a@.map_values(|x: StatementArgument| x@)),
            Err(e) => args_resvds(toks@.map_values(|t: Vec<char>| t@)) == Err::<
                Seq<ArgView>,
                UniPenError,
            >(e),
        },
{
    let ghost tv = toks@.map_values(|t: Vec<char>| t@);
    let mut out: Vec<StatementArgument> = Vec::new();
    let n = toks.len();
    let mut i: usize = 0;
    proof {
        assert(tv.skip(0) =~= tv);
        assert(out@.map_values(|x: StatementArgument| x@) =~= Seq::<ArgView>::empty());
        if let Ok(rest) = args_resvds(tv) {
            assert(Seq::<ArgView>::empty() + rest =~= rest);
        }
    }
    while i < n
        invariant
            i <= n,
            n == toks@.len(),
            tv == toks@.map_values(|t: Vec<char>| t@),
            match args_resvds(tv.skip(i as int)) {
                Ok(rest) => args_resvds(tv) == Ok::<Seq<ArgView>, UniPenError>(
                    out@.map_values(|x: StatementArgument| x@) + rest,
                ),
                Err(e) => args_resvds(tv) == Err::<Seq<ArgView>, UniPenError>(e),
            },
        decreases n - i,
    {
        proof {
            assert(tv.skip(i as int).first() == tv[i as int]);
            assert(tv.skip(i as int).drop_first() =~= tv.skip(i as int + 1));
        }
        let t = &toks[i];
        let arg: StatementArgument = match reserved_of(t.as_slice()) {
            Some(rw) => StatementArgument::Reserved(rw),
            None => {
                return Err(UniPenError::Grammar(GrammarKind::BadToken));
            }
        };
        let ghost old_views = out@.map_values(|x: StatementArgument| x@);
        let ghost av = arg@;
        out.push(arg);
        proof {
            assert(out@.map_values(|x: StatementArgument| x@) =~= old_views.push(av));
            if let Ok(rest2) = args_resvds(tv.skip(i as int + 1)) {
                assert(old_views.push(av) + rest2 =~= old_views + (seq![av] + rest2));
            }
        }
        i += 1;
    }
    proof {
        assert(tv.skip(n as int) =~= Seq::<Seq<char>>::empty());
        assert(out@.map_values(|x: StatementArgument| x@) + Seq::<ArgView>::empty()
            =~= out@.map_values(|x: StatementArgument| x@));
    }
    Ok(out)
}

/// Decodes segment-schema arguments.
fn args_seg_exec(toks: &Vec<Vec<char>>) -> (r: Result<Vec<StatementArgument>, UniPenError>)
    ensures
        match r {
            Ok(a) => args_seg(toks@.map_values(|t: Vec<char>| t@)) == Ok::<Seq<ArgView>, UniPenError>(
                a@.map_values(|x: StatementArgument| x@),
            ),
            Err(e) => args_seg(toks@.map_values(|t: Vec<char>| t@)) == Err::<
                Seq<ArgView>,
                UniPenError,
            >(e),
        },
{
    let ghost tv = toks@.map_values(|t: Vec<char>| t@);
    let n = toks.len();
    if n < 2 || n > 4 {
        return Err(UniPenError::Grammar(GrammarKind::BadToken));
    }
    let t0 = &toks[0];
    let name: StatementArgument = if is_quoted_exec(t0) {
        let inner = vec_range(t0, 1, t0.len() - 1);
        proof {
            assert(inner@ =~= strip_quotes(tv[0]));
        }
        StatementArgument::String(inner)
    } else {
        let whole = vec_range(t0, 0, t0.len());
        proof {
            assert(whole@ =~= tv[0]);
        }
        StatementArgument::String(whole)
    };
    let items = match clist_exec(&toks[1]) {
        Some(items) => items,
        None => {
            return Err(UniPenError::Grammar(GrammarKind::BadToken));
        }
    };
    let mut out: Vec<StatementArgument> = Vec::new();
    let ghost name_v = name@;
    let ghost items_v = items@;
    out.push(name);
    out.push(StatementArgument::List(ComponentList(items)));
    let mut i: usize = 2;
    proof {
        assert(out@.map_values(|x: StatementArgument| x@)
            =~= seq![name_v, ArgView::List(items_v)]);
        assert(tv.skip(2).skip(0) =~= tv.skip(2));
        if let Ok(rest) = trailing_seg_args(tv.skip(2)) {
            assert(Seq::<ArgView>::empty() + rest =~= rest);
        }
    }
    let ghost head = seq![name_v, ArgView::List(items_v)];
    let ghost tail_toks = tv.skip(2);
    while i < n
        invariant
            2 <= i <= n,
            n == toks@.len(),
            tv == toks@.map_values(|t: Vec<char>| t@),
            head == seq![name_v, ArgView::List(items_v)],
            tail_toks == tv.skip(2),
            out@.map_values(|x: StatementArgument| x@).len() == i,
            match trailing_seg_args(tail_toks.skip(i - 2)) {
                Ok(rest) => trailing_seg_args(tail_toks) == Ok::<Seq<ArgView>, UniPenError>(
                    out@.map_values(|x: StatementArgument| x@).skip(2) + rest,
                ),
                Err(e) => trailing_seg_args(tail_toks) == Err::<Seq<ArgView>, UniPenError>(e),
            },
            out@.map_values(|x: StatementArgument| x@).take(2) == head,
        decreases n - i,
    {
        proof {
            assert(tail_toks.skip(i - 2).first() == tv[i as int]);
            assert(tail_toks.skip(i - 2).drop_first() =~= tail_toks.skip(i - 2 + 1));
        }
        let t = &toks[i];
        let arg: StatementArgument = if is_quoted_exec(t) {
            let inner = vec_range(t, 1, t.len() - 1);
            proof {
                assert(inner@ =~= strip_quotes(tv[i as int]));
            }
            StatementArgument::Label(label_exec(&inner))
        } else {
            match reserved_of(t.as_slice()) {
                Some(rw) => StatementArgument::Reserved(rw),
                None => {
                    return Err(UniPenError::Grammar(GrammarKind::BadToken));
                }
            }
        };
        let ghost old_views = out@.map_values(|x: StatementArgument| x@);
        let ghost av = arg@;
        out.push(arg);
        proof {
            assert(out@.map_values(|x: StatementArgument| x@) =~= old_views.push(av));
            assert(old_views.push(av).take(2) =~= old_views.take(2));
            assert(old_views.push(av).skip(2) =~= old_views.skip(2).push(av));
            if let Ok(rest2) = trailing_seg_args(tail_toks.skip(i - 2 + 1)) {
                assert(old_views.skip(2).push(av) + rest2
                    =~= old_views.skip(2) + (seq![av] + rest2));
            }
        }
        i += 1;
    }
    proof {
        assert(tail_toks.skip(n - 2) =~= Seq::<Seq<char>>::empty());
        let views = out@.map_values(|x: StatementArgument| x@);
        if let Ok(rest) = trailing_seg_args(tail_toks) {
            assert(views.skip(2) + Seq::<ArgView>::empty() =~= views.skip(2));
            assert(views =~= head + views.skip(2)) by {
                assert(views.take(2) == head);
                assert(views =~= views.take(2) + views.skip(2));
            }
        }
    }
    Ok(out)
}

/// Decodes one statement segment, its opening dot included.
fn decode_seg_exec(seg: &Vec<char>) -> (r: Result<DecodedItem, UniPenError>)
    requires
        seg@.len() >= 1,
    ensures
        match r {
            Ok(item) => decode_seg(seg@) == Ok::<DecodedItemView, UniPenError>(item@),
            Err(e) => decode_seg(seg@) == Err::<DecodedItemView, UniPenError>(e),
        },
{
    let ke = bare_end_exec(seg, 1);
    let kw = vec_range(seg, 1, ke);
    let k = match keyword_of(kw.as_slice()) {
        Some(k) => k,
        None => {
            return Err(UniPenError::Grammar(GrammarKind::UnknownKeyword));
        }
    };
    let rest = vec_range(seg, ke, seg.len());
    proof {
        assert(rest@ =~= seg@.skip(ke as int));
    }
    match schema_of(k) {
        Schema::Free => {
            let t = trimmed_exec(&rest);
            let mut arguments: Vec<StatementArgument> = Vec::new();
            if t.len() > 0 {
                arguments.push(StatementArgument::FreeText(t));
            }
            let st = Statement { keyword: k, arguments };
            proof {
                if trimmed(rest@).len() == 0 {
                    assert(st@.arguments =~= Seq::<ArgView>::empty());
                } else {
                    assert(st@.arguments =~= seq![ArgView::FreeText(trimmed(rest@))]);
                }
            }
            Ok(DecodedItem::Plain(st))
        }
        Schema::Nums => {
            let toks = match tokens_exec(&rest) {
                Ok(toks) => toks,
                Err(e) => {
                    return Err(e);
                }
            };
            match args_nums_exec(&toks) {
                Ok(a) => {
                    let st = Statement { keyword: k, arguments: a };
                    Ok(DecodedItem::Plain(st))
                }
                Err(e) => Err(e),
            }
        }
        Schema::Strs => {
            let toks = match tokens_exec(&rest) {
                Ok(toks) => toks,
                Err(e) => {
                    return Err(e);
                }
            };
            match args_strs_exec(&toks) {
                Ok(a) => {
                    let st = Statement { keyword: k, arguments: a };
                    Ok(DecodedItem::Plain(st))
                }
                Err(e) => Err(e),
            }
        }
        Schema::Resvds => {
            let toks = match tokens_exec(&rest) {
                Ok(toks) => toks,
                Err(e) => {
                    return Err(e);
                }
            };
            match args_resvds_exec(&toks) {
                Ok(a) => {
                    let st = Statement { keyword: k, arguments: a };
                    Ok(DecodedItem::Plain(st))
                }
                Err(e) => Err(e),
            }
        }
        Schema::Seg => {
            let toks = match tokens_exec(&rest) {
                Ok(toks) => toks,
                Err(e) => {
                    return Err(e);
                }
            };
            match args_seg_exec(&toks) {
                Ok(a) => {
                    let st = Statement { keyword: k, arguments: a };
                    Ok(DecodedItem::Plain(st))
                }
                Err(e) => Err(e),
            }
        }
        Schema::Splice => {
            let toks = match tokens_exec(&rest) {
                Ok(toks) => toks,
                Err(e) => {
                    return Err(e);
                }
            };
            if toks.len() != 1 {
                return Err(UniPenError::Grammar(GrammarKind::BadToken));
            }
            let t0 = &toks[0];
            proof {
                assert(toks@.map_values(|t: Vec<char>| t@)[0] == t0@);
            }
            if is_quoted_exec(t0) {
                let inner = vec_range(t0, 1, t0.len() - 1);
                proof {
                    assert(inner@ =~= strip_quotes(t0@));
                }
                Ok(DecodedItem::Splice(inner))
            } else {
                let whole = vec_range(t0, 0, t0.len());
                proof {
                    assert(whole@ =~= t0@);
                }
                Ok(DecodedItem::Splice(whole))
            }
        }
    }
}

/// Decodes one file's text into its items, the end-of-input marker last.
#[verifier::rlimit(50)]
pub fn decode_document(text: &Vec<char>) -> (r: Result<Vec<DecodedItem>, UniPenError>)
    ensures
        match r {
            Ok(items) => spec_decode(text@) == Ok::<Seq<DecodedItemView>, UniPenError>(
                items@.map_values(|it: DecodedItem| it@),
            ),
            Err(e) => spec_decode(text@) == Err::<Seq<DecodedItemView>, UniPenError>(e),
        },
{
    let n = text.len();
    let f = next_start_exec(text, 0);
    let mut i: usize = 0;
    while i < f
        invariant
            i <= f <= n,
            n == text@.len(),
            f as int == next_start_from(text@, 0),
            forall|j: int| 0 <= j < i ==> is_ws(#[trigger] text@[j]),
        decreases f - i,
    {
        if !ws_char(text[i]) {
            proof {
                assert(!is_ws(text@.take(f as int)[i as int]));
            }
            return Err(UniPenError::Grammar(GrammarKind::LeadingText));
        }
        i += 1;
    }
    proof {
        assert forall|j: int| 0 <= j < text@.take(f as int).len() implies is_ws(
            #[trigger] text@.take(f as int)[j],
        ) by {
            assert(text@.take(f as int)[j] == text@[j]);
        }
        assert(all_ws(text@.take(f as int)));
    }
    let mut out: Vec<DecodedItem> = Vec::new();
    let mut i: usize = f;
    proof {
        lemma_next_start(text@, 0);
        assert(out@.map_values(|it: DecodedItem| it@) =~= Seq::<DecodedItemView>::empty());
        if let Ok(rest) = decode_segs(text@, f as int) {
            assert(Seq::<DecodedItemView>::empty() + rest =~= rest);
        }
    }
    while i < n
        invariant
            f <= i <= n || (f == n && i == n),
            n == text@.len(),
            f as int == next_start_from(text@, 0),
            all_ws(text@.take(f as int)),
            i < n ==> text@[i as int] == '.',
            match decode_segs(text@, i as int) {
                Ok(rest) => decode_segs(text@, f as int) == Ok::<Seq<DecodedItemView>, UniPenError>(
                    out@.map_values(|it: DecodedItem| it@) + rest,
                ),
                Err(e) => decode_segs(text@, f as int) == Err::<Seq<DecodedItemView>, UniPenError>(
                    e,
                ),
            },
        decreases n - i,
    {
        let j = next_start_exec(text, i + 1);
        let seg = vec_range(text, i, j);
        proof {
            lemma_next_start(text@, i as int + 1);
            assert(seg@ =~= text@.subrange(i as int, j as int));
        }
        match decode_seg_exec(&seg) {
            Ok(item) => {
                let ghost old_views = out@.map_values(|it: DecodedItem| it@);
                let ghost iv = item@;
                out.push(item);
                proof {
                    assert(out@.map_values(|it: DecodedItem| it@) =~= old_views.push(iv));
                    if let Ok(rest2) = decode_segs(text@, j as int) {
                        assert(old_views.push(iv) + rest2 =~= old_views + (seq![iv] + rest2));
                    }
                }
                i = j;
            }
            Err(e) => {
                return Err(e);
            }
        }
    }
    proof {
        assert(decode_segs(text@, n as int) == Ok::<Seq<DecodedItemView>, UniPenError>(
            Seq::empty(),
        ));
        assert(out@.map_values(|it: DecodedItem| it@) + Seq::<DecodedItemView>::empty()
            =~= out@.map_values(|it: DecodedItem| it@));
    }
    let ghost old_views = out@.map_values(|it: DecodedItem| it@);
    let eoi = DecodedItem::Plain(Statement { keyword: Keyword::EndOfInput, arguments: Vec::new() });
    proof {
        assert(eoi@ == eoi_view()) by {
            if let DecodedItem::Plain(st) = eoi {
                assert(st@.arguments =~= Seq::<ArgView>::empty());
            }
        }
    }
    out.push(eoi);
    proof {
        assert(out@.map_values(|it: DecodedItem| it@) =~= old_views.push(eoi_view()));
    }
    Ok(out)
}


/// Decoding is a function of the text alone: the same text always yields
/// structurally identical statement sequences.
pub proof fn lemma_decode_deterministic(
    s: Seq<char>,
    r1: Result<Seq<DecodedItemView>, UniPenError>,
    r2: Result<Seq<DecodedItemView>, UniPenError>,
)
    requires
        r1 == spec_decode(s),
        r2 == spec_decode(s),
    ensures
        r1 == r2,
{
}

/// Every decoded file ends in exactly one end-of-input marker, and no
/// other marker statement stands anywhere in it: the push markers come
/// only from the resolver, so a consumer's stack can never underflow
/// within one file.
pub proof fn lemma_decode_markers(s: Seq<char>, items: Seq<DecodedItemView>)
    requires
        spec_decode(s) == Ok::<Seq<DecodedItemView>, UniPenError>(items),
    ensures
        items.len() >= 1,
        items.last() == eoi_view(),
        forall|i: int| 0 <= i < items.len() - 1 ==> !is_marker(#[trigger] items[i]),
{
    let f = next_start_from(s, 0);
    if let Ok(segs) = decode_segs(s, f) {
        lemma_segs_markers(s, f);
    }
}

/// Whether an item is a push or pop marker statement.
pub open spec fn is_marker(item: DecodedItemView) -> bool {
    match item {
        DecodedItemView::Plain(st) => st.keyword == Keyword::Inclusion || st.keyword
            == Keyword::EndOfInput,
        DecodedItemView::Splice(_) => false,
    }
}

/// No decoded segment yields a marker statement: the keyword table never
/// maps text to the pop marker, and the splice keyword becomes a splice
/// item rather than a statement.
proof fn lemma_seg_no_marker(seg: Seq<char>)
    ensures
        match decode_seg(seg) {
            Ok(item) => !is_marker(item),
            Err(_) => true,
        },
{
}

/// Statement-by-statement, a decoded tail holds no marker.
proof fn lemma_segs_markers(s: Seq<char>, i: int)
    ensures
        match decode_segs(s, i) {
            Ok(items) => forall|k: int| 0 <= k < items.len() ==> !is_marker(#[trigger] items[k]),
            Err(_) => true,
        },
    decreases s.len() - i,
{
    if !(i < 0 || i >= s.len()) {
        let j = next_start_from(s, i + 1);
        lemma_next_start(s, i + 1);
        lemma_seg_no_marker(s.subrange(i, j));
        lemma_segs_markers(s, j);
    }
}

} // verus!
