//! Ordering the messages given by command-line flags.

use vstd::prelude::*;
use crate::openai::{message_views, opt_view, Message, MessageView, Role};

verus! {

/// The format in which a response is shown.
#[derive(Debug, Clone, Copy, PartialEq, Eq, Structural)]
pub enum OutputFormat {
    Plaintext,
    JSON,
    JSONPretty,
}

impl Default for OutputFormat {
    fn default() -> (r: OutputFormat)
        ensures
            r == OutputFormat::Plaintext,
    {
        OutputFormat::Plaintext
    }
}

/// Whether a flag message stood at the given position of the command line.
pub open spec fn at_position(k: int) -> spec_fn((MessageView, int)) -> bool {
    |e: (MessageView, int)| e.1 == k
}

pub open spec fn sorted_by_position(s: Seq<(MessageView, int)>) -> bool {
    forall|i: int, j: int| 0 <= i < j < s.len() ==> s[i].1 <= s[j].1
}

/// `r` holds the entries of `s` ordered by position, entries of equal
/// position keeping the order they have in `s`.
pub open spec fn is_stable_sort(r: Seq<(MessageView, int)>, s: Seq<(MessageView, int)>) -> bool {
    &&& sorted_by_position(r)
    &&& forall|k: int| #[trigger] r.filter(at_position(k)) == s.filter(at_position(k))
}

/// The stable ordering of `s` by position.
pub open spec fn stably_sorted(s: Seq<(MessageView, int)>) -> Seq<(MessageView, int)> {
    choose|r: Seq<(MessageView, int)>| is_stable_sort(r, s)
}

/// Texts given with one role's flag, each with the position of its value.
pub open spec fn placed_texts(s: Seq<(String, usize)>) -> Seq<(Seq<char>, int)> {
    s.map_values(|e: (String, usize)| (e.0@, e.1 as int))
}

pub open spec fn tagged(role: Role, s: Seq<(Seq<char>, int)>) -> Seq<(MessageView, int)> {
    s.map_values(|e: (Seq<char>, int)| (MessageView { role, content: e.0 }, e.1))
}

/// The user messages followed by the assistant messages, each with its position.
pub open spec fn flag_entries(users: Seq<(Seq<char>, int)>, assistants: Seq<(Seq<char>, int)>) -> Seq<
    (MessageView, int),
> {
    tagged(Role::User, users) + tagged(Role::Assistant, assistants)
}

pub open spec fn unplaced(s: Seq<(MessageView, int)>) -> Seq<MessageView> {
    s.map_values(|e: (MessageView, int)| e.0)
}

/// The messages of the flags: the system message first when there is one,
/// then the user and assistant messages in the stable order of their positions.
pub open spec fn flag_conversation(
    system: Option<Seq<char>>,
    users: Seq<(Seq<char>, int)>,
    assistants: Seq<(Seq<char>, int)>,
) -> Seq<MessageView> {
    let ordered = unplaced(stably_sorted(flag_entries(users, assistants)));
    match system {
        Some(s) => seq![MessageView { role: Role::System, content: s }] + ordered,
        None => ordered,
    }
}

proof fn lemma_filter_absent(s: Seq<(MessageView, int)>, k: int)
    requires
        forall|i: int| 0 <= i < s.len() ==> (#[trigger] s[i]).1 != k,
    ensures
        s.filter(at_position(k)) == Seq::<(MessageView, int)>::empty(),
    decreases s.len(),
{
    reveal(Seq::filter);
    if s.len() > 0 {
        lemma_filter_absent(s.drop_last(), k);
    }
}

proof fn lemma_filter_single(x: (MessageView, int), k: int)
    ensures
        seq![x].filter(at_position(k)) == (if x.1 == k {
            seq![x]
        } else {
            Seq::<(MessageView, int)>::empty()
        }),
{
    assert(seq![x] =~= Seq::<(MessageView, int)>::empty().push(x));
    Seq::<(MessageView, int)>::empty().lemma_filter_push(x, at_position(k));
    lemma_filter_absent(Seq::<(MessageView, int)>::empty(), k);
    assert(Seq::<(MessageView, int)>::empty().push(x) =~= seq![x]);
}

/// Inserting an entry right after the entries at or before its position keeps
/// a stable ordering stable.
proof fn lemma_insert_keeps_stable(
    out: Seq<(MessageView, int)>,
    t: Seq<(MessageView, int)>,
    x: (MessageView, int),
    p: int,
)
    requires
        is_stable_sort(out, t),
        0 <= p <= out.len(),
        forall|i: int| 0 <= i < p ==> (#[trigger] out[i]).1 <= x.1,
        forall|i: int| p <= i < out.len() ==> (#[trigger] out[i]).1 > x.1,
    ensures
        is_stable_sort(out.insert(p, x), t.push(x)),
{
    let n = out.insert(p, x);
    let front = out.take(p);
    let back = out.skip(p);
    assert(n =~= front + seq![x] + back);
    assert(out =~= front + back);
    assert forall|i: int, j: int| 0 <= i < j < n.len() implies n[i].1 <= n[j].1 by {
        if j < p {
            assert(n[i] == out[i] && n[j] == out[j]);
        } else if j == p {
            assert(n[i] == out[i]);
        } else if i < p {
            assert(n[i] == out[i] && n[j] == out[j - 1]);
        } else if i == p {
            assert(n[j] == out[j - 1]);
        } else {
            assert(n[i] == out[i - 1] && n[j] == out[j - 1]);
        }
    }
    assert forall|k: int| #[trigger] n.filter(at_position(k)) == t.push(x).filter(at_position(k)) by {
        let pk = at_position(k);
        Seq::filter_distributes_over_add(front + seq![x], back, pk);
        Seq::filter_distributes_over_add(front, seq![x], pk);
        Seq::filter_distributes_over_add(front, back, pk);
        t.lemma_filter_push(x, pk);
        lemma_filter_single(x, k);
        assert(out.filter(at_position(k)) == t.filter(at_position(k)));
        if k == x.1 {
            assert forall|i: int| 0 <= i < back.len() implies (#[trigger] back[i]).1 != k by {
                assert(back[i] == out[p + i]);
            }
            lemma_filter_absent(back, k);
            assert(front.filter(pk) + Seq::<(MessageView, int)>::empty() =~= front.filter(pk));
            assert(front.filter(pk) + seq![x] =~= front.filter(pk).push(x));
        } else {
            assert(front.filter(pk) + Seq::<(MessageView, int)>::empty() =~= front.filter(pk));
        }
    }
}

/// The index after the last entry of a sorted sequence at or before position `k`.
spec fn insertion_point(r: Seq<(MessageView, int)>, k: int) -> int
    decreases r.len(),
{
    if r.len() == 0 {
        0
    } else if r.last().1 <= k {
        r.len() as int
    } else {
        insertion_point(r.drop_last(), k)
    }
}

proof fn lemma_insertion_point(r: Seq<(MessageView, int)>, k: int)
    requires
        sorted_by_position(r),
    ensures
        0 <= insertion_point(r, k) <= r.len(),
        forall|i: int| 0 <= i < insertion_point(r, k) ==> (#[trigger] r[i]).1 <= k,
        forall|i: int| insertion_point(r, k) <= i < r.len() ==> (#[trigger] r[i]).1 > k,
    decreases r.len(),
{
    if r.len() > 0 && r.last().1 > k {
        lemma_insertion_point(r.drop_last(), k);
        assert forall|i: int| 0 <= i < insertion_point(r, k) implies (#[trigger] r[i]).1 <= k by {
            assert(r[i] == r.drop_last()[i]);
        }
        assert forall|i: int| insertion_point(r, k) <= i < r.len() implies (#[trigger] r[i]).1 > k by {
            if i < r.len() - 1 {
                assert(r[i] == r.drop_last()[i]);
            }
        }
    }
}

/// A stable ordering built by inserting the entries one after another.
spec fn insertion_sorted(s: Seq<(MessageView, int)>) -> Seq<(MessageView, int)>
    decreases s.len(),
{
    if s.len() == 0 {
        s
    } else {
        let r = insertion_sorted(s.drop_last());
        r.insert(insertion_point(r, s.last().1), s.last())
    }
}

proof fn lemma_insertion_sorted(s: Seq<(MessageView, int)>)
    ensures
        is_stable_sort(insertion_sorted(s), s),
    decreases s.len(),
{
    if s.len() == 0 {
        assert forall|k: int| #[trigger] s.filter(at_position(k)) == s.filter(at_position(k)) by {}
    } else {
        let r = insertion_sorted(s.drop_last());
        lemma_insertion_sorted(s.drop_last());
        lemma_insertion_point(r, s.last().1);
        lemma_insert_keeps_stable(r, s.drop_last(), s.last(), insertion_point(r, s.last().1));
        assert(s.drop_last().push(s.last()) =~= s);
    }
}

/// Two stable orderings of the same entries are the same sequence.
proof fn lemma_stable_sort_unique(a: Seq<(MessageView, int)>, b: Seq<(MessageView, int)>)
    requires
        sorted_by_position(a),
        sorted_by_position(b),
        forall|k: int| #[trigger] a.filter(at_position(k)) == b.filter(at_position(k)),
    ensures
        a == b,
    decreases a.len() + b.len(),
{
    if a.len() == 0 || b.len() == 0 {
        if a.len() > 0 {
            a.lemma_filter_contains(at_position(a[0].1), 0);
            lemma_filter_absent(b, a[0].1);
            assert(a.filter(at_position(a[0].1)) == b.filter(at_position(a[0].1)));
        } else if b.len() > 0 {
            b.lemma_filter_contains(at_position(b[0].1), 0);
            lemma_filter_absent(a, b[0].1);
            assert(a.filter(at_position(b[0].1)) == b.filter(at_position(b[0].1)));
        } else {
            assert(a =~= b);
        }
    } else {
        let x = a.last();
        let y = b.last();
        // The last entries share the greatest position.
        assert(x.1 == y.1) by {
            a.lemma_filter_contains(at_position(x.1), a.len() - 1);
            assert(a.filter(at_position(x.1)) == b.filter(at_position(x.1)));
            b.lemma_filter_contains_rev(at_position(x.1), x);
            let jb = choose|j: int| 0 <= j < b.len() && b[j] == x;
            b.lemma_filter_contains(at_position(y.1), b.len() - 1);
            assert(a.filter(at_position(y.1)) == b.filter(at_position(y.1)));
            a.lemma_filter_contains_rev(at_position(y.1), y);
            let ja = choose|j: int| 0 <= j < a.len() && a[j] == y;
            assert(b[jb].1 <= y.1);
            assert(a[ja].1 <= x.1);
        }
        let a0 = a.drop_last();
        let b0 = b.drop_last();
        assert(a0.push(x) =~= a);
        assert(b0.push(y) =~= b);
        assert forall|k: int| #[trigger] a0.filter(at_position(k)) == b0.filter(at_position(k)) by {
            a0.lemma_filter_push(x, at_position(k));
            b0.lemma_filter_push(y, at_position(k));
            assert(a.filter(at_position(k)) == b.filter(at_position(k)));
            if k == x.1 {
                let fa = a0.filter(at_position(k));
                let fb = b0.filter(at_position(k));
                assert(fa.push(x).drop_last() =~= fa);
                assert(fb.push(y).drop_last() =~= fb);
            }
        }
        assert(x == y) by {
            a0.lemma_filter_push(x, at_position(x.1));
            b0.lemma_filter_push(y, at_position(x.1));
            assert(a.filter(at_position(x.1)) == b.filter(at_position(x.1)));
            assert(a.filter(at_position(x.1)).last() == x);
        }
        assert forall|i: int, j: int| 0 <= i < j < a0.len() implies a0[i].1 <= a0[j].1 by {
            assert(a0[i] == a[i] && a0[j] == a[j]);
        }
        assert forall|i: int, j: int| 0 <= i < j < b0.len() implies b0[i].1 <= b0[j].1 by {
            assert(b0[i] == b[i] && b0[j] == b[j]);
        }
        lemma_stable_sort_unique(a0, b0);
    }
}

/// Some stable ordering exists, and `stably_sorted` is the only one.
pub proof fn lemma_stably_sorted(s: Seq<(MessageView, int)>)
    ensures
        is_stable_sort(stably_sorted(s), s),
        forall|r: Seq<(MessageView, int)>| is_stable_sort(r, s) ==> r == stably_sorted(s),
{
    lemma_insertion_sorted(s);
    assert forall|r: Seq<(MessageView, int)>| is_stable_sort(r, s) implies r == stably_sorted(s) by {
        let c = stably_sorted(s);
        assert forall|k: int| #[trigger] r.filter(at_position(k)) == c.filter(at_position(k)) by {
            assert(r.filter(at_position(k)) == s.filter(at_position(k)));
            assert(c.filter(at_position(k)) == s.filter(at_position(k)));
        }
        lemma_stable_sort_unique(r, c);
    }
}

pub open spec fn placed_views(s: Seq<(Message, usize)>) -> Seq<(MessageView, int)> {
    s.map_values(|e: (Message, usize)| (e.0@, e.1 as int))
}

/// Orders flag messages by position, stably.
fn sort_by_position(entries: Vec<(Message, usize)>) -> (r: Vec<(Message, usize)>)
    ensures
        is_stable_sort(placed_views(r@), placed_views(entries@)),
{
    let ghost all = placed_views(entries@);
    let mut rest = entries;
    let mut out: Vec<(Message, usize)> = Vec::new();
    let ghost mut done: int = 0;
    proof {
        assert(placed_views(out@) =~= all.take(0));
        assert forall|k: int| #[trigger] all.take(0).filter(at_position(k)) == all.take(0).filter(
            at_position(k),
        ) by {}
    }
    while rest.len() > 0
        invariant
            0 <= done <= all.len(),
            placed_views(rest@) == all.skip(done),
            is_stable_sort(placed_views(out@), all.take(done)),
        decreases rest@.len(),
    {
        let ghost rest_before = rest@;
        let e = rest.remove(0);
        let pos = e.1;
        proof {
            assert(rest_before.len() > 0);
            assert(placed_views(rest_before).len() > 0);
            assert(all.skip(done).len() > 0);
            assert(done < all.len());
            assert(placed_views(rest_before)[0] == all.skip(done)[0]);
            assert(all.skip(done)[0] == all[done]);
            assert((e.0@, pos as int) == all[done]);
        }
        let mut j: usize = 0;
        while j < out.len() && out[j].1 <= pos
            invariant
                j <= out@.len(),
                forall|t: int| 0 <= t < j ==> (#[trigger] out@[t]).1 <= pos,
            decreases out@.len() - j,
        {
            j = j + 1;
        }
        let ghost before = placed_views(out@);
        proof {
            assert forall|t: int| 0 <= t < j implies (#[trigger] before[t]).1 <= pos as int by {
                assert(before[t].1 == out@[t].1 as int);
            }
            assert forall|t: int| j <= t < before.len() implies (#[trigger] before[t]).1 > pos as int by {
                assert(before[j as int].1 == out@[j as int].1 as int);
                assert(before[t].1 == out@[t].1 as int);
                assert(before[j as int].1 <= before[t].1);
            }
            lemma_insert_keeps_stable(before, all.take(done), (e.0@, pos as int), j as int);
            assert(all.take(done).push(all[done]) =~= all.take(done + 1));
        }
        out.insert(j, e);
        proof {
            assert(placed_views(out@) =~= before.insert(j as int, (e.0@, pos as int)));
            done = done + 1;
            assert(rest@ =~= rest_before.skip(1));
            assert forall|t: int| 0 <= t < rest@.len() implies #[trigger] placed_views(rest@)[t] == all.skip(done)[t] by {
                assert(rest@[t] == rest_before[t + 1]);
                assert(placed_views(rest_before)[t + 1] == all.skip(done - 1)[t + 1]);
            }
            assert(placed_views(rest@) =~= all.skip(done));
        }
    }
    proof {
        assert(all.take(done) =~= all);
    }
    out
}

/// Orders the messages given by flags: the system message first when there is
/// one, then the user and assistant messages by the positions at which their
/// values stood on the command line.
pub fn messages_from_flags(
    system: Option<String>,
    users: Vec<(String, usize)>,
    assistants: Vec<(String, usize)>,
) -> (r: Vec<Message>)
    ensures
        message_views(r@) == flag_conversation(
            opt_view(system),
            placed_texts(users@),
            placed_texts(assistants@),
        ),
{
    let ghost tu = tagged(Role::User, placed_texts(users@));
    let ghost ta = tagged(Role::Assistant, placed_texts(assistants@));
    let ghost want = flag_entries(placed_texts(users@), placed_texts(assistants@));
    let mut entries: Vec<(Message, usize)> = Vec::new();
    let mut i: usize = 0;
    while i < users.len()
        invariant
            i <= users@.len(),
            tu.len() == users@.len(),
            tu == tagged(Role::User, placed_texts(users@)),
            entries@.len() == i,
            forall|t: int| 0 <= t < i ==> #[trigger] placed_views(entries@)[t] == tu[t],
        decreases users@.len() - i,
    {
        let message = Message { role: Role::User, content: users[i].0.clone() };
        let ghost before = entries@;
        entries.push((message, users[i].1));
        proof {
            assert forall|t: int| 0 <= t < i + 1 implies #[trigger] placed_views(entries@)[t] == tu[t] by {
                if t < i {
                    assert(placed_views(before)[t] == tu[t]);
                    assert(entries@[t] == before[t]);
                } else {
                    assert(entries@[t] == (message, users@[i as int].1));
                }
            }
        }
        i = i + 1;
    }
    let mut i: usize = 0;
    while i < assistants.len()
        invariant
            i <= assistants@.len(),
            tu.len() == users@.len(),
            ta.len() == assistants@.len(),
            ta == tagged(Role::Assistant, placed_texts(assistants@)),
            entries@.len() == tu.len() + i,
            forall|t: int| 0 <= t < tu.len() ==> #[trigger] placed_views(entries@)[t] == tu[t],
            forall|t: int| 0 <= t < i ==> #[trigger] placed_views(entries@)[tu.len() + t] == ta[t],
        decreases assistants@.len() - i,
    {
        let message = Message { role: Role::Assistant, content: assistants[i].0.clone() };
        let ghost before = entries@;
        entries.push((message, assistants[i].1));
        proof {
            assert forall|t: int| 0 <= t < tu.len() implies #[trigger] placed_views(entries@)[t] == tu[t] by {
                assert(placed_views(before)[t] == tu[t]);
                assert(entries@[t] == before[t]);
            }
            assert forall|t: int| 0 <= t < i + 1 implies #[trigger] placed_views(entries@)[tu.len() + t] == ta[t] by {
                if t < i {
                    assert(placed_views(before)[tu.len() + t] == ta[t]);
                    assert(entries@[tu.len() + t] == before[tu.len() + t]);
                } else {
                    assert(entries@[tu.len() + t] == (message, assistants@[i as int].1));
                }
            }
        }
        i = i + 1;
    }
    proof {
        assert forall|t: int| 0 <= t < want.len() implies #[trigger] placed_views(entries@)[t] == want[t] by {
            if t < tu.len() {
                assert(placed_views(entries@)[t] == tu[t]);
            } else {
                assert(placed_views(entries@)[tu.len() + (t - tu.len())] == ta[t - tu.len()]);
            }
        }
        assert(placed_views(entries@) =~= want);
    }
    let mut sorted = sort_by_position(entries);
    proof {
        lemma_stably_sorted(want);
    }
    let ghost ordered = unplaced(placed_views(sorted@));
    let mut messages: Vec<Message> = Vec::new();
    match system {
        Some(text) => messages.push(Message { role: Role::System, content: text }),
        None => {},
    }
    let ghost head = message_views(messages@);
    let ghost mut taken: int = 0;
    while sorted.len() > 0
        invariant
            0 <= taken <= ordered.len(),
            unplaced(placed_views(sorted@)) == ordered.skip(taken),
            messages@.len() == head.len() + taken,
            forall|t: int| 0 <= t < head.len() ==> #[trigger] message_views(messages@)[t] == head[t],
            forall|t: int| 0 <= t < taken ==> #[trigger] message_views(messages@)[head.len() + t] == ordered[t],
        decreases sorted@.len(),
    {
        let ghost sorted_before = sorted@;
        let ghost messages_before = messages@;
        let (message, _) = sorted.remove(0);
        proof {
            assert(sorted_before.len() > 0);
            assert(unplaced(placed_views(sorted_before)).len() > 0);
            assert(ordered.skip(taken).len() > 0);
            assert(unplaced(placed_views(sorted_before))[0] == ordered.skip(taken)[0]);
            assert(ordered.skip(taken)[0] == ordered[taken]);
            assert(message@ == ordered[taken]);
        }
        messages.push(message);
        proof {
            assert(sorted@ =~= sorted_before.skip(1));
            assert forall|t: int| 0 <= t < head.len() implies #[trigger] message_views(messages@)[t] == head[t] by {
                assert(message_views(messages_before)[t] == head[t]);
                assert(messages@[t] == messages_before[t]);
            }
            assert forall|t: int| 0 <= t < taken + 1 implies #[trigger] message_views(messages@)[head.len() + t] == ordered[t] by {
                if t < taken {
                    assert(message_views(messages_before)[head.len() + t] == ordered[t]);
                    assert(messages@[head.len() + t] == messages_before[head.len() + t]);
                } else {
                    assert(messages@[head.len() + t] == message);
                }
            }
            assert forall|t: int| 0 <= t < sorted@.len() implies #[trigger] unplaced(placed_views(sorted@))[t] == ordered.skip(taken + 1)[t] by {
                assert(sorted@[t] == sorted_before[t + 1]);
                assert(unplaced(placed_views(sorted_before))[t + 1] == ordered.skip(taken)[t + 1]);
            }
            taken = taken + 1;
            assert(unplaced(placed_views(sorted@)) =~= ordered.skip(taken));
        }
    }
    proof {
        assert(taken == ordered.len());
        let want_all = flag_conversation(
            opt_view(system),
            placed_texts(users@),
            placed_texts(assistants@),
        );
        assert(head + ordered =~= want_all);
        assert forall|t: int| 0 <= t < want_all.len() implies #[trigger] message_views(messages@)[t] == want_all[t] by {
            if t < head.len() {
                assert(message_views(messages@)[t] == head[t]);
            } else {
                assert(message_views(messages@)[head.len() + (t - head.len())] == ordered[t - head.len()]);
            }
        }
        assert(message_views(messages@) =~= want_all);
    }
    messages
}

/// Whatever the number of user and assistant messages and however they are
/// interleaved, the flag messages come out exactly as the stable ordering of
/// their entries by position: any sequence that orders them by position and
/// keeps the given order among equal positions is the one listed.
pub proof fn lemma_flag_order(
    users: Seq<(Seq<char>, int)>,
    assistants: Seq<(Seq<char>, int)>,
    r: Seq<(MessageView, int)>,
)
    requires
        is_stable_sort(r, flag_entries(users, assistants)),
    ensures
        flag_conversation(None, users, assistants) == unplaced(r),
{
    lemma_stably_sorted(flag_entries(users, assistants));
}

/// With a system message, the conversation of the flags starts with it and
/// holds no other system message, wherever its flag stood.
pub proof fn lemma_system_first(
    system: Seq<char>,
    users: Seq<(Seq<char>, int)>,
    assistants: Seq<(Seq<char>, int)>,
)
    ensures
        flag_conversation(Some(system), users, assistants).len() > 0,
        flag_conversation(Some(system), users, assistants)[0] == (MessageView {
            role: Role::System,
            content: system,
        }),
        forall|i: int|
            0 < i < flag_conversation(Some(system), users, assistants).len() ==> (#[trigger] flag_conversation(
                Some(system),
                users,
                assistants,
            )[i]).role != Role::System,
{
    let s = flag_entries(users, assistants);
    let r = stably_sorted(s);
    lemma_stably_sorted(s);
    assert forall|i: int| 0 <= i < r.len() implies (#[trigger] r[i]).0.role != Role::System by {
        r.lemma_filter_contains(at_position(r[i].1), i);
        assert(r.filter(at_position(r[i].1)) == s.filter(at_position(r[i].1)));
        s.lemma_filter_contains_rev(at_position(r[i].1), r[i]);
        let j = choose|j: int| 0 <= j < s.len() && s[j] == r[i];
        let tu = tagged(Role::User, users);
        if j < tu.len() {
            assert(s[j] == tu[j]);
        } else {
            assert(s[j] == tagged(Role::Assistant, assistants)[j - tu.len()]);
        }
    }
    let c = flag_conversation(Some(system), users, assistants);
    assert forall|i: int| 0 < i < c.len() implies (#[trigger] c[i]).role != Role::System by {
        assert(c[i] == unplaced(r)[i - 1]);
        assert(unplaced(r)[i - 1] == r[i - 1].0);
    }
}

} // verus!
