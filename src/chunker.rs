use vstd::prelude::*;
use vstd::string::*;

use crate::text::{decimal, decimal_of};

verus! {

/// The chunker's view of a batch of messages: `(sender label, text)` pairs.
pub open spec fn entries_of(messages: Seq<(String, String)>) -> Seq<(Seq<char>, Seq<char>)> {
    messages.map_values(|m: (String, String)| (m.0@, m.1@))
}

/// The numbered line that stands for one message in a payload.
pub open spec fn line_of(index: nat, sender: Seq<char>, text: Seq<char>) -> Seq<char> {
    decimal_of(index) + ". [@"@ + sender + "]: \""@ + text + "\"\n"@
}

/// The lines of a window of messages, numbered from 1.
pub open spec fn render_window(w: Seq<(Seq<char>, Seq<char>)>) -> Seq<char>
    decreases w.len(),
{
    if w.len() == 0 {
        Seq::empty()
    } else {
        render_window(w.drop_last()) + line_of(w.len() as nat, w.last().0, w.last().1)
    }
}

/// How a batch is split into windows, one per payload. Messages are taken in
/// order; one joins the last window while the payload stays within `budget`
/// (counting `overhead` for the payload's fixed text), and otherwise opens a
/// new window of its own.
pub open spec fn pack_windows(
    msgs: Seq<(Seq<char>, Seq<char>)>,
    overhead: nat,
    budget: nat,
) -> Seq<Seq<(Seq<char>, Seq<char>)>>
    decreases msgs.len(),
{
    if msgs.len() == 0 {
        Seq::empty()
    } else {
        let prev = pack_windows(msgs.drop_last(), overhead, budget);
        let m = msgs.last();
        if prev.len() == 0 {
            seq![seq![m]]
        } else if overhead + render_window(prev.last().push(m)).len() <= budget {
            prev.update(prev.len() - 1, prev.last().push(m))
        } else {
            prev.push(seq![m])
        }
    }
}

/// The body of each payload that `pack_messages` produces: the window's lines
/// and the closing marker.
pub open spec fn packed_bodies(
    msgs: Seq<(Seq<char>, Seq<char>)>,
    header: Seq<char>,
    closing: Seq<char>,
    budget: nat,
) -> Seq<Seq<char>> {
    pack_windows(msgs, header.len() + closing.len(), budget).map_values(
        |w: Seq<(Seq<char>, Seq<char>)>| render_window(w) + closing,
    )
}

/// A window of one message is that message's line, numbered 1.
pub proof fn lemma_render_single(m: (Seq<char>, Seq<char>))
    ensures
        render_window(seq![m]) == line_of(1, m.0, m.1),
{
    let w = seq![m];
    assert(w.drop_last() =~= Seq::<(Seq<char>, Seq<char>)>::empty());
    assert(w.last() == m);
    assert(render_window(w.drop_last()) == Seq::<char>::empty());
    assert(render_window(w) == render_window(w.drop_last()) + line_of(1, m.0, m.1));
    assert(render_window(w) =~= line_of(1, m.0, m.1));
}

/// Packing keeps every window non-empty, and each window that holds more than
/// one message stays within the budget.
pub proof fn lemma_windows_bounded(msgs: Seq<(Seq<char>, Seq<char>)>, overhead: nat, budget: nat)
    ensures
        pack_windows(msgs, overhead, budget).len() == 0 <==> msgs.len() == 0,
        forall|i: int|
            0 <= i < pack_windows(msgs, overhead, budget).len() ==> {
                let w = #[trigger] pack_windows(msgs, overhead, budget)[i];
                &&& w.len() >= 1
                &&& w.len() == 1 || overhead + render_window(w).len() <= budget
            },
    decreases msgs.len(),
{
    if msgs.len() > 0 {
        let prev = pack_windows(msgs.drop_last(), overhead, budget);
        lemma_windows_bounded(msgs.drop_last(), overhead, budget);
        let ws = pack_windows(msgs, overhead, budget);
        assert forall|i: int| 0 <= i < ws.len() implies {
            let w = #[trigger] ws[i];
            &&& w.len() >= 1
            &&& w.len() == 1 || overhead + render_window(w).len() <= budget
        } by {
            if i < prev.len() && i < ws.len() - 1 {
                assert(ws[i] == prev[i]);
            }
        }
    }
}

/// Packing neither drops, duplicates nor reorders messages: the windows, read
/// one after another, are the batch itself.
pub proof fn lemma_windows_keep_order(msgs: Seq<(Seq<char>, Seq<char>)>, overhead: nat, budget: nat)
    ensures
        pack_windows(msgs, overhead, budget).flatten_alt() == msgs,
    decreases msgs.len(),
{
    if msgs.len() > 0 {
        let prev = pack_windows(msgs.drop_last(), overhead, budget);
        let m = msgs.last();
        lemma_windows_keep_order(msgs.drop_last(), overhead, budget);
        lemma_windows_bounded(msgs.drop_last(), overhead, budget);
        let ws = pack_windows(msgs, overhead, budget);
        if prev.len() == 0 {
            assert(msgs.drop_last().len() == 0);
            assert(ws.drop_last() =~= Seq::<Seq<(Seq<char>, Seq<char>)>>::empty());
            assert(ws.flatten_alt() =~= msgs);
        } else if overhead + render_window(prev.last().push(m)).len() <= budget {
            assert(ws.drop_last() =~= prev.drop_last());
            assert(ws.last() == prev.last().push(m));
            assert(prev.flatten_alt() == prev.drop_last().flatten_alt() + prev.last());
            assert(ws.flatten_alt() == ws.drop_last().flatten_alt() + ws.last());
            assert(msgs =~= msgs.drop_last().push(m));
            assert(ws.flatten_alt() =~= msgs);
        } else {
            assert(ws.drop_last() =~= prev);
            assert(ws.flatten_alt() == ws.drop_last().flatten_alt() + ws.last());
            assert(msgs =~= msgs.drop_last().push(m));
            assert(ws.flatten_alt() =~= msgs);
        }
    }
}

/// Chunk budget: each payload, its header and closing marker counted, stays
/// within the budget unless it carries a single message's line.
pub proof fn lemma_payloads_within_budget(
    msgs: Seq<(Seq<char>, Seq<char>)>,
    header: Seq<char>,
    closing: Seq<char>,
    budget: nat,
)
    ensures
        forall|i: int|
            0 <= i < packed_bodies(msgs, header, closing, budget).len() ==> header.len()
                + (#[trigger] packed_bodies(msgs, header, closing, budget)[i]).len() <= budget
                || pack_windows(msgs, header.len() + closing.len(), budget)[i].len() == 1,
{
    lemma_windows_bounded(msgs, header.len() + closing.len(), budget);
    let ws = pack_windows(msgs, header.len() + closing.len(), budget);
    assert forall|i: int| 0 <= i < packed_bodies(msgs, header, closing, budget).len() implies header.len()
        + (#[trigger] packed_bodies(msgs, header, closing, budget)[i]).len() <= budget
        || ws[i].len() == 1 by {
        assert(ws[i].len() == 1 || header.len() + closing.len() + render_window(ws[i]).len() <= budget);
    }
}

/// Chronology: the payloads' windows, concatenated in order, give back the
/// batch in its own order, and there is no payload for an empty batch.
pub proof fn lemma_payloads_keep_order(
    msgs: Seq<(Seq<char>, Seq<char>)>,
    header: Seq<char>,
    closing: Seq<char>,
    budget: nat,
)
    ensures
        pack_windows(msgs, header.len() + closing.len(), budget).flatten_alt() == msgs,
        packed_bodies(msgs, header, closing, budget).len() == pack_windows(
            msgs,
            header.len() + closing.len(),
            budget,
        ).len(),
        packed_bodies(msgs, header, closing, budget).len() == 0 <==> msgs.len() == 0,
{
    lemma_windows_keep_order(msgs, header.len() + closing.len(), budget);
    lemma_windows_bounded(msgs, header.len() + closing.len(), budget);
}

/// A message's line is never shorter than it is when numbered 1.
pub proof fn lemma_line_widens_with_index(n: nat, sender: Seq<char>, text: Seq<char>)
    requires
        n >= 1,
    ensures
        line_of(n, sender, text).len() >= line_of(1, sender, text).len(),
{
    assert(decimal_of(1) == seq![crate::text::digit_char(1)]);
    assert(decimal_of(n).len() >= 1);
}

/// A window's text holds the line of each of its messages.
pub proof fn lemma_window_holds_lines(w: Seq<(Seq<char>, Seq<char>)>, k: int)
    requires
        0 <= k < w.len(),
    ensures
        render_window(w).len() >= line_of((k + 1) as nat, w[k].0, w[k].1).len(),
    decreases w.len(),
{
    if k < w.len() - 1 {
        lemma_window_holds_lines(w.drop_last(), k);
        assert(w.drop_last()[k] == w[k]);
    }
}

/// Oversized messages: a message whose line alone, numbered 1 and with the
/// header and closing marker, exceeds the budget is packed into a window of
/// its own. With `lemma_payloads_keep_order` it is thus kept whole, once, and
/// shares its payload with no other message.
pub proof fn lemma_oversized_message_alone(
    msgs: Seq<(Seq<char>, Seq<char>)>,
    header: Seq<char>,
    closing: Seq<char>,
    budget: nat,
)
    ensures
        forall|i: int, k: int|
            0 <= i < pack_windows(msgs, header.len() + closing.len(), budget).len() && 0 <= k
                < pack_windows(msgs, header.len() + closing.len(), budget)[i].len() && header.len()
                + closing.len() + line_of(
                1,
                (#[trigger] pack_windows(msgs, header.len() + closing.len(), budget)[i][k]).0,
                pack_windows(msgs, header.len() + closing.len(), budget)[i][k].1,
            ).len() > budget ==> pack_windows(msgs, header.len() + closing.len(), budget)[i].len()
                == 1,
{
    let overhead = header.len() + closing.len();
    let ws = pack_windows(msgs, overhead, budget);
    lemma_windows_bounded(msgs, overhead, budget);
    assert forall|i: int, k: int|
        0 <= i < ws.len() && 0 <= k < ws[i].len() && overhead + line_of(
            1,
            (#[trigger] ws[i][k]).0,
            ws[i][k].1,
        ).len() > budget implies ws[i].len() == 1 by {
        lemma_window_holds_lines(ws[i], k);
        lemma_line_widens_with_index((k + 1) as nat, ws[i][k].0, ws[i][k].1);
    }
}

/// Renders the line of one message.
pub fn render_line(index: usize, sender: &str, text: &str) -> (r: String)
    ensures
        r@ == line_of(index as nat, sender@, text@),
{
    let mut line = decimal(index);
    line.append(". [@");
    line.append(sender);
    line.append("]: \"");
    line.append(text);
    line.append("\"\n");
    line
}

/// Packs a chronological batch of `(sender, text)` messages into payload
/// bodies. Each body is the numbered lines of one window followed by
/// `closing`; together with `header` it stays within `budget` characters
/// unless it holds a single message. An empty batch gives no payload.
pub fn pack_messages(
    messages: &Vec<(String, String)>,
    header: &str,
    closing: &str,
    budget: usize,
) -> (r: Vec<String>)
    ensures
        r@.map_values(|s: String| s@) == packed_bodies(
            entries_of(messages@),
            header@,
            closing@,
            budget as nat,
        ),
{
    let ghost msgs = entries_of(messages@);
    let ghost overhead = header@.len() + closing@.len();
    let header_len = header.unicode_len();
    let closing_len = closing.unicode_len();
    let mut bodies: Vec<String> = Vec::new();
    let mut current = String::new();
    let mut current_len: usize = 0;
    let mut current_count: usize = 0;
    let mut i: usize = 0;
    while i < messages.len()
        invariant
            i <= messages.len(),
            msgs == entries_of(messages@),
            overhead == header@.len() + closing@.len(),
            header_len == header@.len(),
            closing_len == closing@.len(),
            i == 0 ==> bodies@.len() == 0,
            i > 0 ==> ({
                let ws = pack_windows(msgs.take(i as int), overhead, budget as nat);
                &&& ws.len() == bodies@.len() + 1
                &&& current@ == render_window(ws.last())
                &&& current_len == current@.len()
                &&& current_count == ws.last().len()
                &&& current_count <= i
                &&& forall|j: int|
                    0 <= j < bodies@.len() ==> #[trigger] bodies@[j]@ == render_window(ws[j])
                        + closing@
            }),
        decreases messages.len() - i,
    {
        let ghost before = msgs.take(i as int);
        let ghost after = msgs.take(i + 1);
        assert(after.drop_last() =~= before);
        assert(after.last() == msgs[i as int]);
        let sender = messages[i].0.as_str();
        let text = messages[i].1.as_str();
        if i == 0 {
            current = render_line(1, sender, text);
            current_len = current.unicode_len();
            current_count = 1;
            proof {
                lemma_render_single(msgs[0]);
                assert(pack_windows(before, overhead, budget as nat).len() == 0);
                assert(pack_windows(after, overhead, budget as nat) == seq![seq![msgs[0]]]);
            }
        } else {
            let ghost ws = pack_windows(before, overhead, budget as nat);
            let ghost m = msgs[i as int];
            let line = render_line(current_count + 1, sender, text);
            let line_len = line.unicode_len();
            let fits = header_len <= budget && closing_len <= budget - header_len && current_len
                <= budget - header_len - closing_len && line_len <= budget - header_len
                - closing_len - current_len;
            proof {
                let grown = ws.last().push(m);
                assert(grown.drop_last() =~= ws.last());
                assert(render_window(grown) == render_window(ws.last()) + line_of(
                    grown.len() as nat,
                    m.0,
                    m.1,
                ));
                assert(fits <==> overhead + render_window(grown).len() <= budget);
            }
            if fits {
                current.append(line.as_str());
                current_len = current_len + line_len;
                current_count = current_count + 1;
                proof {
                    let ws2 = pack_windows(after, overhead, budget as nat);
                    assert(ws2 == ws.update(ws.len() - 1, ws.last().push(m)));
                    assert(ws2.last() == ws.last().push(m));
                    assert forall|j: int| 0 <= j < bodies@.len() implies #[trigger] bodies@[j]@
                        == render_window(ws2[j]) + closing@ by {
                        assert(ws2[j] == ws[j]);
                    }
                }
            } else {
                current.append(closing);
                bodies.push(current);
                current = render_line(1, sender, text);
                current_len = current.unicode_len();
                current_count = 1;
                proof {
                    lemma_render_single(m);
                    let ws2 = pack_windows(after, overhead, budget as nat);
                    assert(ws2 == ws.push(seq![m]));
                    assert forall|j: int| 0 <= j < bodies@.len() implies #[trigger] bodies@[j]@
                        == render_window(ws2[j]) + closing@ by {
                        assert(ws2[j] == ws[j]);
                    }
                }
            }
        }
        i = i + 1;
    }
    if i > 0 {
        current.append(closing);
        bodies.push(current);
    }
    assert(msgs.take(i as int) =~= msgs);
    assert(bodies@.map_values(|s: String| s@) =~= packed_bodies(
        msgs,
        header@,
        closing@,
        budget as nat,
    ));
    bodies
}

} // verus!
