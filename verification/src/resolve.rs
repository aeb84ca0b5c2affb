//! The splice resolver: assembles one decoded file's flattened statement
//! stream, bracketing every file's statements by its own push and pop
//! markers.
//!
//! The library performs no I/O, so the file reads and the recursion over
//! them stay with the caller: it decodes each file, resolves the files the
//! splice directives name, and hands the decoded items together with the
//! already-resolved child streams to [`splice_file`]. Every call — the
//! top-level one included — prepends its own push marker and relies on the
//! decoder's end-of-input marker at the end, so the result is a flat,
//! depth-first, pre-order stream in which every file's statements are
//! bracketed by its own push/pop pair, and a consumer can reconstruct the
//! nesting with a simple stack.

use vstd::prelude::*;

use crate::decode::{eoi_view, is_marker, DecodedItem, DecodedItemView};
use crate::lex::{copy_chars, copy_vec};
use crate::statements::{
    ArgView, ComponentList, Keyword, Statement, StatementArgument, StatementView,
};

verus! {

/// The push marker that opens one file's statements.
pub open spec fn marker_view(path: Seq<char>) -> StatementView {
    StatementView { keyword: Keyword::Inclusion, arguments: seq![ArgView::Str(path)] }
}

/// The number of splice directives among a file's decoded items.
pub open spec fn splice_count(items: Seq<DecodedItemView>) -> int
    decreases items.len(),
{
    if items.len() == 0 {
        0
    } else {
        (match items.first() {
            DecodedItemView::Splice(_) => 1int,
            DecodedItemView::Plain(_) => 0int,
        }) + splice_count(items.drop_first())
    }
}

/// A count of directives is never negative.
pub proof fn lemma_splice_count_nonneg(items: Seq<DecodedItemView>)
    ensures
        splice_count(items) >= 0,
    decreases items.len(),
{
    if items.len() > 0 {
        lemma_splice_count_nonneg(items.drop_first());
    }
}

/// The spliced tail of one file: each plain statement in order, each
/// directive replaced by the resolved stream of its file.
pub open spec fn splice_tail(
    items: Seq<DecodedItemView>,
    children: Seq<Seq<StatementView>>,
) -> Seq<StatementView>
    decreases items.len(),
{
    if items.len() == 0 {
        Seq::empty()
    } else {
        match items.first() {
            DecodedItemView::Plain(st) => seq![st] + splice_tail(items.drop_first(), children),
            DecodedItemView::Splice(_) => children.first() + splice_tail(
                items.drop_first(),
                children.drop_first(),
            ),
        }
    }
}

/// One file's resolved stream: its own push marker, then its spliced tail.
pub open spec fn spec_splice(
    path: Seq<char>,
    items: Seq<DecodedItemView>,
    children: Seq<Seq<StatementView>>,
) -> Seq<StatementView> {
    seq![marker_view(path)] + splice_tail(items, children)
}

/// A fresh argument with the same value.
fn copy_argument(a: &StatementArgument) -> (r: StatementArgument)
    ensures
        r@ == a@,
{
    match a {
        StatementArgument::Number(n) => StatementArgument::Number(*n),
        StatementArgument::String(s) => StatementArgument::String(copy_chars(s)),
        StatementArgument::FreeText(s) => StatementArgument::FreeText(copy_chars(s)),
        StatementArgument::Reserved(rw) => StatementArgument::Reserved(*rw),
        StatementArgument::Label(s) => StatementArgument::Label(copy_chars(s)),
        StatementArgument::List(l) => StatementArgument::List(ComponentList(copy_vec(&l.0))),
    }
}

/// A fresh statement with the same value.
fn copy_statement(st: &Statement) -> (r: Statement)
    ensures
        r@ == st@,
{
    let mut arguments: Vec<StatementArgument> = Vec::new();
    let n = st.arguments.len();
    let mut i: usize = 0;
    proof {
        assert(arguments@.map_values(|a: StatementArgument| a@) =~= Seq::<ArgView>::empty());
    }
    while i < n
        invariant
            i <= n,
            n == st.arguments@.len(),
            arguments@.map_values(|a: StatementArgument| a@) == st@.arguments.take(i as int),
        decreases n - i,
    {
        let ghost old_views = arguments@.map_values(|a: StatementArgument| a@);
        let a = copy_argument(&st.arguments[i]);
        let ghost av = a@;
        arguments.push(a);
        proof {
            assert(arguments@.map_values(|a: StatementArgument| a@) =~= old_views.push(av));
            assert(st@.arguments[i as int] == st.arguments@[i as int]@);
            assert(old_views.push(av) =~= st@.arguments.take(i as int + 1));
        }
        i += 1;
    }
    proof {
        assert(st@.arguments.take(n as int) =~= st@.arguments);
    }
    Statement { keyword: st.keyword, arguments }
}

/// Appends a copy of every statement of `src` to `out`.
fn append_statements(out: &mut Vec<Statement>, src: &Vec<Statement>)
    ensures
        final (out)@.map_values(|st: Statement| st@) == old(out)@.map_values(
            |st: Statement| st@,
        ) + src@.map_values(|st: Statement| st@),
{
    let ghost base = old(out)@.map_values(|st: Statement| st@);
    let ghost sv = src@.map_values(|st: Statement| st@);
    let n = src.len();
    let mut i: usize = 0;
    while i < n
        invariant
            i <= n,
            n == src@.len(),
            sv == src@.map_values(|st: Statement| st@),
            out@.map_values(|st: Statement| st@) == base + sv.take(i as int),
        decreases n - i,
    {
        let ghost old_views = out@.map_values(|st: Statement| st@);
        let st = copy_statement(&src[i]);
        let ghost stv = st@;
        out.push(st);
        proof {
            assert(out@.map_values(|st: Statement| st@) =~= old_views.push(stv));
            assert(sv[i as int] == src@[i as int]@);
            assert((base + sv.take(i as int)).push(stv) =~= base + sv.take(i as int + 1));
        }
        i += 1;
    }
    proof {
        assert(sv.take(n as int) =~= sv);
    }
}

/// Assembles one decoded file's spliced stream: the push marker for
/// `path` first, each plain statement in order, each splice directive
/// replaced by the already-resolved stream of its file.
#[verifier::loop_isolation(false)]
pub fn splice_file(
    path: &Vec<char>,
    items: &Vec<DecodedItem>,
    children: &Vec<Vec<Statement>>,
) -> (r: Vec<Statement>)
    requires
        children@.len() == splice_count(items@.map_values(|it: DecodedItem| it@)),
    ensures
        r@.map_values(|st: Statement| st@) == spec_splice(
            path@,
            items@.map_values(|it: DecodedItem| it@),
            children@.map_values(|c: Vec<Statement>| c@.map_values(|st: Statement| st@)),
        ),
{
    let ghost iv = items@.map_values(|it: DecodedItem| it@);
    let ghost cv = children@.map_values(|c: Vec<Statement>| c@.map_values(|st: Statement| st@));
    let mut out: Vec<Statement> = Vec::new();
    let marker = Statement {
        keyword: Keyword::Inclusion,
        arguments: vec![StatementArgument::String(copy_chars(path))],
    };
    proof {
        assert(marker@.arguments =~= seq![ArgView::Str(path@)]);
    }
    out.push(marker);
    proof {
        assert(out@.map_values(|st: Statement| st@) =~= seq![marker_view(path@)]);
        assert(iv.skip(0) =~= iv);
        assert(cv.skip(0) =~= cv);
    }
    let n = items.len();
    let n_children = children.len();
    proof {
        assert(cv.len() == n_children as int);
    }
    let mut i: usize = 0;
    let mut ci: usize = 0;
    while i < n
        invariant
            i <= n,
            ci <= cv.len(),
            n == items@.len(),
            iv == items@.map_values(|it: DecodedItem| it@),
            cv == children@.map_values(
                |c: Vec<Statement>| c@.map_values(|st: Statement| st@),
            ),
            splice_count(iv.skip(i as int)) == cv.len() - ci,
            spec_splice(path@, iv, cv) == out@.map_values(|st: Statement| st@) + splice_tail(
                iv.skip(i as int),
                cv.skip(ci as int),
            ),
        decreases n - i,
    {
        proof {
            assert(iv.skip(i as int).first() == iv[i as int]);
            assert(iv[i as int] == items@[i as int]@);
            assert(iv.skip(i as int).drop_first() =~= iv.skip(i as int + 1));
        }
        match &items[i] {
            DecodedItem::Plain(st) => {
                let ghost old_views = out@.map_values(|st: Statement| st@);
                let c = copy_statement(st);
                let ghost stv = c@;
                out.push(c);
                proof {
                    assert(out@.map_values(|st: Statement| st@) =~= old_views.push(stv));
                    assert(old_views.push(stv) + splice_tail(iv.skip(i as int + 1), cv.skip(
                        ci as int,
                    )) =~= old_views + (seq![stv] + splice_tail(
                        iv.skip(i as int + 1),
                        cv.skip(ci as int),
                    )));
                }
                i += 1;
            }
            DecodedItem::Splice(_) => {
                proof {
                    assert(splice_count(iv.skip(i as int)) == 1 + splice_count(
                        iv.skip(i as int + 1),
                    ));
                    lemma_splice_count_nonneg(iv.skip(i as int + 1));
                    assert(ci < cv.len());
                    assert(cv.skip(ci as int).first() == cv[ci as int]);
                    assert(cv[ci as int] == children@[ci as int]@.map_values(
                        |st: Statement| st@,
                    ));
                    assert(cv.skip(ci as int).drop_first() =~= cv.skip(ci as int + 1));
                }
                let ghost old_views = out@.map_values(|st: Statement| st@);
                append_statements(&mut out, &children[ci]);
                proof {
                    assert((old_views + cv[ci as int]) + splice_tail(iv.skip(i as int + 1), cv.skip(
                        ci as int + 1,
                    )) =~= old_views + (cv[ci as int] + splice_tail(
                        iv.skip(i as int + 1),
                        cv.skip(ci as int + 1),
                    )));
                }
                ci += 1;
                i += 1;
            }
        }
    }
    proof {
        assert(iv.skip(n as int) =~= Seq::<DecodedItemView>::empty());
        assert(out@.map_values(|st: Statement| st@) + Seq::<StatementView>::empty()
            =~= out@.map_values(|st: Statement| st@));
    }
    out
}

/// How many push markers a stream holds.
pub open spec fn inc_count(s: Seq<StatementView>) -> int
    decreases s.len(),
{
    if s.len() == 0 {
        0
    } else {
        (if s.first().keyword == Keyword::Inclusion {
            1int
        } else {
            0int
        }) + inc_count(s.drop_first())
    }
}

/// How many pop markers a stream holds.
pub open spec fn eoi_count(s: Seq<StatementView>) -> int
    decreases s.len(),
{
    if s.len() == 0 {
        0
    } else {
        (if s.first().keyword == Keyword::EndOfInput {
            1int
        } else {
            0int
        }) + eoi_count(s.drop_first())
    }
}

/// Every prefix has at least as many pushes as pops: the consumer's file
/// stack never underflows.
pub open spec fn prefix_ok(s: Seq<StatementView>) -> bool {
    forall|k: int| 0 <= k <= s.len() ==> inc_count(#[trigger] s.take(k)) >= eoi_count(s.take(k))
}

/// A stream whose pushes and pops pair up exactly, with no prefix ever
/// popping more than it has pushed.
pub open spec fn balanced(s: Seq<StatementView>) -> bool {
    inc_count(s) == eoi_count(s) && prefix_ok(s)
}

/// The push markers of all the child streams together.
pub open spec fn total_inc(children: Seq<Seq<StatementView>>) -> int
    decreases children.len(),
{
    if children.len() == 0 {
        0
    } else {
        inc_count(children.first()) + total_inc(children.drop_first())
    }
}

/// Marker counts add up over concatenation.
pub proof fn lemma_counts_concat(a: Seq<StatementView>, b: Seq<StatementView>)
    ensures
        inc_count(a + b) == inc_count(a) + inc_count(b),
        eoi_count(a + b) == eoi_count(a) + eoi_count(b),
    decreases a.len(),
{
    if a.len() == 0 {
        assert(a + b =~= b);
    } else {
        assert((a + b).first() == a.first());
        assert((a + b).drop_first() =~= a.drop_first() + b);
        lemma_counts_concat(a.drop_first(), b);
    }
}

/// The spliced tail of a decoded file pops once more than it pushes —
/// the file's own end-of-input marker — and no strict prefix of it pops
/// more than it pushes.
proof fn lemma_splice_tail_counts(items: Seq<DecodedItemView>, children: Seq<Seq<StatementView>>)
    requires
        items.len() >= 1,
        items.last() == eoi_view(),
        forall|i: int| 0 <= i < items.len() - 1 ==> !is_marker(#[trigger] items[i]),
        children.len() == splice_count(items),
        forall|j: int| 0 <= j < children.len() ==> balanced(#[trigger] children[j]),
    ensures
        inc_count(splice_tail(items, children)) == total_inc(children),
        eoi_count(splice_tail(items, children)) == total_inc(children) + 1,
        forall|k: int| 0 <= k < splice_tail(items, children).len() ==> inc_count(
            #[trigger] splice_tail(items, children).take(k),
        ) >= eoi_count(splice_tail(items, children).take(k)),
    decreases items.len(),
{
    let tail = splice_tail(items, children);
    if items.len() == 1 {
        match items.first() {
            DecodedItemView::Plain(st) => {
                assert(items.first() == items.last());
                assert(st.keyword == Keyword::EndOfInput);
                assert(items.drop_first() =~= Seq::<DecodedItemView>::empty());
                assert(splice_count(Seq::<DecodedItemView>::empty()) == 0);
                assert(splice_count(items) == 0);
                assert(children.len() == 0);
                assert(children =~= Seq::<Seq<StatementView>>::empty());
                assert(total_inc(Seq::<Seq<StatementView>>::empty()) == 0);
                assert(splice_tail(Seq::<DecodedItemView>::empty(), children)
                    == Seq::<StatementView>::empty());
                assert(tail == seq![st] + splice_tail(items.drop_first(), children));
                assert(tail =~= seq![st]);
                assert(tail.first() == st);
                assert(tail.drop_first() =~= Seq::<StatementView>::empty());
                assert(inc_count(Seq::<StatementView>::empty()) == 0);
                assert(eoi_count(Seq::<StatementView>::empty()) == 0);
                assert(eoi_count(tail) == 1);
                assert(inc_count(tail) == 0);
                assert forall|k: int| 0 <= k < tail.len() implies inc_count(
                    #[trigger] tail.take(k),
                ) >= eoi_count(tail.take(k)) by {
                    assert(tail.take(k) =~= Seq::<StatementView>::empty());
                }
            },
            DecodedItemView::Splice(_) => {
                assert(items.first() == items.last());
                assert(false);
            },
        }
    } else {
        let rest_items = items.drop_first();
        assert(rest_items.last() == items.last());
        assert forall|i: int| 0 <= i < rest_items.len() - 1 implies !is_marker(
            #[trigger] rest_items[i],
        ) by {
            assert(rest_items[i] == items[i + 1]);
        }
        match items.first() {
            DecodedItemView::Plain(st) => {
                assert(items[0] == items.first());
                assert(!is_marker(items[0]));
                assert(st.keyword != Keyword::Inclusion && st.keyword != Keyword::EndOfInput);
                assert(splice_count(items) == splice_count(rest_items));
                lemma_splice_tail_counts(rest_items, children);
                let tail1 = splice_tail(rest_items, children);
                assert(tail == seq![st] + tail1);
                lemma_counts_concat(seq![st], tail1);
                assert(inc_count(seq![st]) == 0 && eoi_count(seq![st]) == 0) by {
                    assert(seq![st].first() == st);
                    assert(seq![st].drop_first() =~= Seq::<StatementView>::empty());
                    assert(inc_count(Seq::<StatementView>::empty()) == 0);
                    assert(eoi_count(Seq::<StatementView>::empty()) == 0);
                }
                assert forall|k: int| 0 <= k < tail.len() implies inc_count(
                    #[trigger] tail.take(k),
                ) >= eoi_count(tail.take(k)) by {
                    if k == 0 {
                        assert(tail.take(0) =~= Seq::<StatementView>::empty());
                    } else {
                        assert(tail.take(k) =~= seq![st] + tail1.take(k - 1));
                        lemma_counts_concat(seq![st], tail1.take(k - 1));
                        assert(inc_count(seq![st]) == 0 && eoi_count(seq![st]) == 0) by {
                            assert(seq![st].first() == st);
                            assert(seq![st].drop_first() =~= Seq::<StatementView>::empty());
                            assert(inc_count(Seq::<StatementView>::empty()) == 0);
                            assert(eoi_count(Seq::<StatementView>::empty()) == 0);
                        }
                        assert(inc_count(tail1.take(k - 1)) >= eoi_count(tail1.take(k - 1)));
                    }
                }
            },
            DecodedItemView::Splice(_) => {
                assert(splice_count(items) == 1 + splice_count(rest_items));
                lemma_splice_count_nonneg(rest_items);
                assert(children.len() >= 1);
                let c0 = children.first();
                let rest_children = children.drop_first();
                assert(splice_count(rest_items) == rest_children.len());
                assert forall|j: int| 0 <= j < rest_children.len() implies balanced(
                    #[trigger] rest_children[j],
                ) by {
                    assert(rest_children[j] == children[j + 1]);
                }
                lemma_splice_tail_counts(rest_items, rest_children);
                let tail1 = splice_tail(rest_items, rest_children);
                assert(tail == c0 + tail1);
                lemma_counts_concat(c0, tail1);
                assert(balanced(c0)) by {
                    assert(children[0] == c0);
                }
                assert(total_inc(children) == inc_count(c0) + total_inc(rest_children));
                assert forall|k: int| 0 <= k < tail.len() implies inc_count(
                    #[trigger] tail.take(k),
                ) >= eoi_count(tail.take(k)) by {
                    if k <= c0.len() {
                        assert(tail.take(k) =~= c0.take(k));
                        assert(inc_count(c0.take(k)) >= eoi_count(c0.take(k)));
                    } else {
                        assert(tail.take(k) =~= c0 + tail1.take(k - c0.len()));
                        lemma_counts_concat(c0, tail1.take(k - c0.len()));
                        assert(inc_count(tail1.take(k - c0.len())) >= eoi_count(
                            tail1.take(k - c0.len()),
                        ));
                        assert(c0.take(c0.len() as int) =~= c0);
                        assert(inc_count(c0) == eoi_count(c0));
                    }
                }
            },
        }
    }
}

/// For a document of nested spliced files, the flattened stream holds one
/// push and one pop marker per file — the root included — and at every
/// prefix the pushes seen are at least the pops seen, so a consumer's
/// stack never underflows. The requirements on `items` are exactly what
/// `lemma_decode_markers` gives for any decoded file, and each resolved
/// child stream is balanced by this very lemma, one level down.
pub proof fn lemma_splice_balanced(
    path: Seq<char>,
    items: Seq<DecodedItemView>,
    children: Seq<Seq<StatementView>>,
)
    requires
        items.len() >= 1,
        items.last() == eoi_view(),
        forall|i: int| 0 <= i < items.len() - 1 ==> !is_marker(#[trigger] items[i]),
        children.len() == splice_count(items),
        forall|j: int| 0 <= j < children.len() ==> balanced(#[trigger] children[j]),
    ensures
        inc_count(spec_splice(path, items, children)) == 1 + total_inc(children),
        eoi_count(spec_splice(path, items, children)) == inc_count(
            spec_splice(path, items, children),
        ),
        balanced(spec_splice(path, items, children)),
{
    let m = seq![marker_view(path)];
    let tail = splice_tail(items, children);
    let whole = spec_splice(path, items, children);
    lemma_splice_tail_counts(items, children);
    lemma_counts_concat(m, tail);
    assert(inc_count(m) == 1 && eoi_count(m) == 0) by {
        assert(m.first() == marker_view(path));
        assert(m.drop_first() =~= Seq::<StatementView>::empty());
        assert(inc_count(Seq::<StatementView>::empty()) == 0);
        assert(eoi_count(Seq::<StatementView>::empty()) == 0);
    }
    assert forall|k: int| 0 <= k <= whole.len() implies inc_count(#[trigger] whole.take(k))
        >= eoi_count(whole.take(k)) by {
        if k == 0 {
            assert(whole.take(0) =~= Seq::<StatementView>::empty());
        } else {
            assert(whole.take(k) =~= m + tail.take(k - 1));
            lemma_counts_concat(m, tail.take(k - 1));
            assert(inc_count(m) == 1 && eoi_count(m) == 0) by {
                assert(m.first() == marker_view(path));
                assert(m.drop_first() =~= Seq::<StatementView>::empty());
                assert(inc_count(Seq::<StatementView>::empty()) == 0);
                assert(eoi_count(Seq::<StatementView>::empty()) == 0);
            }
            if k - 1 < tail.len() {
                assert(inc_count(tail.take(k - 1)) >= eoi_count(tail.take(k - 1)));
            } else {
                assert(tail.take(k - 1) =~= tail);
            }
        }
    }
}

} // verus!
