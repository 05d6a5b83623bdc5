//! Chunking of a drained batch under the outbound size budget.
//!
//! The flush worker concatenates drained messages, a separator between each
//! pair, into chunks, and starts a new chunk as soon as appending the next
//! message (plus separator) would push the chunk past the budget. A message
//! that alone exceeds the budget travels as its own oversized chunk,
//! unmodified: nothing is ever truncated or split.

use vstd::prelude::*;

verus! {

/// The text of each drained entry, in batch order.
pub open spec fn batch_messages(batch: Seq<(u32, String)>) -> Seq<Seq<char>> {
    batch.map_values(|entry: (u32, String)| entry.1@)
}

/// The characters of each string, in order.
pub open spec fn string_views(strings: Seq<String>) -> Seq<Seq<char>> {
    strings.map_values(|s: String| s@)
}

/// The messages of one group concatenated, `sep` between each adjacent pair.
pub open spec fn spec_join(group: Seq<Seq<char>>, sep: Seq<char>) -> Seq<char>
    decreases group.len(),
{
    if group.len() == 0 {
        Seq::empty()
    } else if group.len() == 1 {
        group[0]
    } else {
        spec_join(group.drop_last(), sep) + sep + group.last()
    }
}

/// Greedy grouping of `msgs[i..]`, continuing the open group `cur`: the next
/// message joins the open group exactly when the group stays within `budget`,
/// and otherwise closes it and opens a new one.
pub open spec fn spec_groups_from(
    msgs: Seq<Seq<char>>,
    i: int,
    cur: Seq<Seq<char>>,
    sep: Seq<char>,
    budget: nat,
) -> Seq<Seq<Seq<char>>>
    decreases msgs.len() - i,
{
    if i >= msgs.len() {
        seq![cur]
    } else if spec_join(cur, sep).len() + sep.len() + msgs[i].len() <= budget {
        spec_groups_from(msgs, i + 1, cur.push(msgs[i]), sep, budget)
    } else {
        seq![cur] + spec_groups_from(msgs, i + 1, seq![msgs[i]], sep, budget)
    }
}

/// The greedy partition of `msgs` into groups; no groups at all when there
/// is nothing to send.
pub open spec fn spec_groups(msgs: Seq<Seq<char>>, sep: Seq<char>, budget: nat) -> Seq<
    Seq<Seq<char>>,
> {
    if msgs.len() == 0 {
        Seq::empty()
    } else {
        spec_groups_from(msgs, 1, seq![msgs[0]], sep, budget)
    }
}

/// Each group joined into its outbound text.
pub open spec fn join_all(groups: Seq<Seq<Seq<char>>>, sep: Seq<char>) -> Seq<Seq<char>> {
    groups.map_values(|group: Seq<Seq<char>>| spec_join(group, sep))
}

/// The chunk texts the flush worker sends for a batch, in order.
pub open spec fn spec_chunks(msgs: Seq<Seq<char>>, sep: Seq<char>, budget: nat) -> Seq<
    Seq<char>,
> {
    join_all(spec_groups(msgs, sep, budget), sep)
}

proof fn lemma_join_push(group: Seq<Seq<char>>, sep: Seq<char>, msg: Seq<char>)
    requires
        group.len() >= 1,
    ensures
        spec_join(group.push(msg), sep) == spec_join(group, sep) + sep + msg,
{
    assert(group.push(msg).drop_last() =~= group);
    assert(group.push(msg).last() == msg);
}

/// Splits the messages of a drained batch into chunks: each chunk holds one
/// or more whole messages joined by `separator`, greedily filled up to
/// `budget` characters; an empty batch yields no chunks.
pub fn chunk_messages(batch: &Vec<(u32, String)>, separator: &str, budget: usize) -> (chunks: Vec<
    String,
>)
    ensures
        string_views(chunks@) == spec_chunks(batch_messages(batch@), separator@, budget as nat),
{
    let ghost msgs = batch_messages(batch@);
    let ghost sep = separator@;
    let mut chunks: Vec<String> = Vec::new();
    if batch.len() == 0 {
        proof {
            assert(string_views(chunks@) =~= spec_chunks(msgs, sep, budget as nat));
        }
        return chunks;
    }
    let sep_len = separator.unicode_len();
    let mut cur = String::new();
    cur.append(batch[0].1.as_str());
    let mut cur_len = batch[0].1.as_str().unicode_len();
    let ghost mut cur_group: Seq<Seq<char>> = seq![msgs[0]];
    proof {
        assert(cur@ =~= msgs[0]);
    }
    let mut i: usize = 1;
    while i < batch.len()
        invariant
            1 <= i <= batch@.len(),
            msgs == batch_messages(batch@),
            sep == separator@,
            sep_len == sep.len(),
            cur_group.len() >= 1,
            cur@ == spec_join(cur_group, sep),
            cur_len == cur@.len(),
            spec_chunks(msgs, sep, budget as nat) == string_views(chunks@) + join_all(
                spec_groups_from(msgs, i as int, cur_group, sep, budget as nat),
                sep,
            ),
        decreases batch@.len() - i,
    {
        let msg = &batch[i].1;
        let msg_len = msg.as_str().unicode_len();
        proof {
            assert(msgs[i as int] == batch@[i as int].1@);
        }
        let fits = cur_len <= budget && sep_len <= budget - cur_len && msg_len <= budget - cur_len
            - sep_len;
        proof {
            assert(fits == (spec_join(cur_group, sep).len() + sep.len() + msgs[i as int].len()
                <= budget as nat));
        }
        if fits {
            cur.append(separator);
            cur.append(msg.as_str());
            cur_len = cur_len + sep_len + msg_len;
            proof {
                lemma_join_push(cur_group, sep, msgs[i as int]);
                cur_group = cur_group.push(msgs[i as int]);
            }
        } else {
            let mut closed = String::new();
            closed.append(msg.as_str());
            core::mem::swap(&mut cur, &mut closed);
            cur_len = msg_len;
            proof {
                let ghost closed_group = cur_group;
                let ghost rest = spec_groups_from(
                    msgs,
                    i as int + 1,
                    seq![msgs[i as int]],
                    sep,
                    budget as nat,
                );
                assert(spec_groups_from(msgs, i as int, closed_group, sep, budget as nat)
                    == seq![closed_group] + rest);
                assert(join_all(seq![closed_group] + rest, sep) =~= seq![
                    spec_join(closed_group, sep),
                ] + join_all(rest, sep));
                assert(string_views(chunks@.push(closed)) =~= string_views(chunks@) + seq![
                    closed@,
                ]);
                assert(string_views(chunks@) + seq![closed@] + join_all(rest, sep)
                    =~= string_views(chunks@) + (seq![spec_join(closed_group, sep)] + join_all(
                    rest,
                    sep,
                )));
                cur_group = seq![msgs[i as int]];
                assert(cur@ =~= msgs[i as int]);
            }
            chunks.push(closed);
        }
        i += 1;
    }
    proof {
        assert(spec_groups_from(msgs, i as int, cur_group, sep, budget as nat) == seq![cur_group]);
        assert(join_all(seq![cur_group], sep) =~= seq![spec_join(cur_group, sep)]);
        assert(string_views(chunks@.push(cur)) =~= string_views(chunks@) + seq![cur@]);
    }
    chunks.push(cur);
    chunks
}

proof fn lemma_groups_from_flatten(
    msgs: Seq<Seq<char>>,
    i: int,
    cur: Seq<Seq<char>>,
    sep: Seq<char>,
    budget: nat,
)
    requires
        0 <= i <= msgs.len(),
    ensures
        spec_groups_from(msgs, i, cur, sep, budget).flatten() == cur + msgs.skip(i),
    decreases msgs.len() - i,
{
    if i == msgs.len() {
        let groups = seq![cur];
        groups.lemma_flatten_one_element();
        assert(msgs.skip(i) =~= Seq::<Seq<char>>::empty());
        assert(cur + msgs.skip(i) =~= cur);
    } else if spec_join(cur, sep).len() + sep.len() + msgs[i].len() <= budget {
        lemma_groups_from_flatten(msgs, i + 1, cur.push(msgs[i]), sep, budget);
        assert(cur.push(msgs[i]) + msgs.skip(i + 1) =~= cur + msgs.skip(i));
    } else {
        lemma_groups_from_flatten(msgs, i + 1, seq![msgs[i]], sep, budget);
        let rest = spec_groups_from(msgs, i + 1, seq![msgs[i]], sep, budget);
        let groups = seq![cur] + rest;
        assert(groups.len() >= 1);
        assert(groups.first() == cur);
        assert(groups.drop_first() =~= rest);
        assert(groups.flatten() == cur + rest.flatten());
        assert(seq![msgs[i]] + msgs.skip(i + 1) =~= msgs.skip(i));
        assert(cur + (seq![msgs[i]] + msgs.skip(i + 1)) =~= cur + msgs.skip(i));
    }
}

/// Every drained message lands in exactly one group, exactly once, and the
/// groups preserve batch order: concatenating the groups of the greedy
/// partition gives back the drained messages unchanged. Together with the
/// drain swap this is why no message is lost or duplicated on the way out.
pub proof fn lemma_chunks_cover_messages(msgs: Seq<Seq<char>>, sep: Seq<char>, budget: nat)
    ensures
        spec_groups(msgs, sep, budget).flatten() == msgs,
{
    if msgs.len() == 0 {
        assert(spec_groups(msgs, sep, budget).flatten() =~= msgs);
    } else {
        lemma_groups_from_flatten(msgs, 1, seq![msgs[0]], sep, budget);
        assert(seq![msgs[0]] + msgs.skip(1) =~= msgs);
    }
}

/// One group of the partition is sound: it is non-empty, and its joined
/// text fits the budget unless it is a lone message of the batch.
pub open spec fn group_ok(
    group: Seq<Seq<char>>,
    msgs: Seq<Seq<char>>,
    sep: Seq<char>,
    budget: nat,
) -> bool {
    group.len() >= 1 && (spec_join(group, sep).len() <= budget || (group.len() == 1
        && msgs.contains(group[0])))
}

proof fn lemma_groups_from_budget(
    msgs: Seq<Seq<char>>,
    i: int,
    cur: Seq<Seq<char>>,
    sep: Seq<char>,
    budget: nat,
)
    requires
        0 <= i <= msgs.len(),
        group_ok(cur, msgs, sep, budget),
    ensures
        forall|gi: int|
            0 <= gi < spec_groups_from(msgs, i, cur, sep, budget).len() ==> group_ok(
                #[trigger] spec_groups_from(msgs, i, cur, sep, budget)[gi],
                msgs,
                sep,
                budget,
            ),
    decreases msgs.len() - i,
{
    let groups = spec_groups_from(msgs, i, cur, sep, budget);
    if i == msgs.len() {
        assert(groups[0] == cur);
    } else if spec_join(cur, sep).len() + sep.len() + msgs[i].len() <= budget {
        lemma_join_push(cur, sep, msgs[i]);
        lemma_groups_from_budget(msgs, i + 1, cur.push(msgs[i]), sep, budget);
        let rest = spec_groups_from(msgs, i + 1, cur.push(msgs[i]), sep, budget);
        assert forall|gi: int| 0 <= gi < groups.len() implies group_ok(
            #[trigger] groups[gi],
            msgs,
            sep,
            budget,
        ) by {
            assert(groups[gi] == rest[gi]);
        }
    } else {
        assert(msgs.contains(msgs[i]));
        lemma_groups_from_budget(msgs, i + 1, seq![msgs[i]], sep, budget);
        let rest = spec_groups_from(msgs, i + 1, seq![msgs[i]], sep, budget);
        assert(groups == seq![cur] + rest);
        assert forall|gi: int| 0 <= gi < groups.len() implies group_ok(
            #[trigger] groups[gi],
            msgs,
            sep,
            budget,
        ) by {
            if gi == 0 {
                assert(groups[0] == cur);
            } else {
                assert(groups[gi] == rest[gi - 1]);
            }
        }
    }
}

/// The chunk budget holds: every chunk fits within `budget` characters,
/// except that a chunk carrying a single message longer than the budget is
/// exactly that message, unmodified.
pub proof fn lemma_chunk_budget(msgs: Seq<Seq<char>>, sep: Seq<char>, budget: nat)
    ensures
        forall|ci: int|
            0 <= ci < spec_chunks(msgs, sep, budget).len() ==> (
            #[trigger] spec_chunks(msgs, sep, budget)[ci]).len() <= budget || msgs.contains(
                spec_chunks(msgs, sep, budget)[ci],
            ),
{
    if msgs.len() > 0 {
        assert(msgs.contains(msgs[0]));
        lemma_groups_from_budget(msgs, 1, seq![msgs[0]], sep, budget);
        assert forall|ci: int| 0 <= ci < spec_chunks(msgs, sep, budget).len() implies (
        #[trigger] spec_chunks(msgs, sep, budget)[ci]).len() <= budget || msgs.contains(
            spec_chunks(msgs, sep, budget)[ci],
        ) by {
            let groups = spec_groups(msgs, sep, budget);
            let group = groups[ci];
            assert(spec_chunks(msgs, sep, budget)[ci] == spec_join(group, sep));
            if !(spec_join(group, sep).len() <= budget) {
                assert(group.len() == 1 && msgs.contains(group[0]));
                assert(spec_join(group, sep) == group[0]);
            }
        }
    }
}

} // verus!
