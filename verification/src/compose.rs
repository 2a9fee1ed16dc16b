//! Composing a proposal in natural language.
use crate::client::{Client, ClientView, Command, Key, Keys, Ui};
use crate::text::texts;
use crate::types::{Action, ActionView};
use vstd::prelude::*;

verus! {

/// The texts typed in a frame, one after the other.
pub open spec fn typed_text(parts: Seq<Seq<char>>) -> Seq<char>
    decreases parts.len(),
{
    if parts.len() == 0 {
        Seq::empty()
    } else {
        typed_text(parts.drop_last()) + parts.last()
    }
}

/// A draft with text added at its end, up to a length; a draft that is longer already stays.
pub open spec fn lengthened(draft: Seq<char>, typed: Seq<char>, max: nat) -> Seq<char> {
    let all = draft + typed;
    if draft.len() >= max {
        draft
    } else if all.len() <= max {
        all
    } else {
        all.take(max as int)
    }
}

/// A draft without its last character.
pub open spec fn shortened(draft: Seq<char>) -> Seq<char> {
    if draft.len() == 0 {
        draft
    } else {
        draft.drop_last()
    }
}

/// The draft after the keys of a frame.
pub open spec fn edited(draft: Seq<char>, keys: Keys, typed: Seq<Seq<char>>, max: nat) -> Seq<char> {
    let kept = if keys.down(Key::Backspace) {
        shortened(draft)
    } else {
        draft
    };
    lengthened(kept, typed_text(typed), max)
}

/// Whether a frame ends the composing: with the proposal sent, or not.
pub open spec fn ends(keys: Keys) -> bool {
    keys.down(Key::Escape) || keys.down(Key::Enter) || keys.down(Key::NumpadEnter)
}

/// The state after a frame of composing. The frame in which composing began collects nothing: the
/// key that began it is still among the typed texts.
pub open spec fn after_compose(state: ClientView, keys: Keys, typed: Seq<Seq<char>>, max: nat) -> ClientView {
    if !state.ui.composing {
        state
    } else if state.ui.just_activated {
        ClientView { ui: Ui { just_activated: false, ..state.ui }, ..state }
    } else if ends(keys) {
        ClientView { ui: Ui { composing: false, ..state.ui }, draft: Seq::empty(), ..state }
    } else {
        ClientView { draft: edited(state.draft, keys, typed, max), ..state }
    }
}

/// The proposal that a frame of composing sends: to the counterpart, if the enter key ended it.
pub open spec fn sent(state: ClientView, keys: Keys) -> Option<ActionView> {
    if state.ui.composing && !state.ui.just_activated && !keys.down(Key::Escape) && ends(keys) && state.ui.player is Some {
        match state.ui.diplomacy_target {
            Some(to) => Some(ActionView::Proposal { to, text: state.draft }),
            None => None,
        }
    } else {
        None
    }
}

/// What a command orders, if it is an order.
pub open spec fn order_view(command: Option<Command>) -> Option<ActionView> {
    match command {
        Some(Command::Order(action)) => Some(action@),
        _ => None,
    }
}

/// Adding one more character.
proof fn lemma_lengthened_push(draft: Seq<char>, typed: Seq<char>, c: char, max: nat)
    ensures
        lengthened(draft, typed.push(c), max) == (if lengthened(draft, typed, max).len() < max {
            lengthened(draft, typed, max).push(c)
        } else {
            lengthened(draft, typed, max)
        }),
{
    let all = draft + typed;
    assert(draft + typed.push(c) =~= all.push(c));
    if draft.len() < max {
        if all.len() < max {
        } else if all.len() == max {
            assert(all.push(c).take(max as int) =~= all);
        } else {
            assert(all.push(c).take(max as int) =~= all.take(max as int));
        }
    }
}

fn add_text(draft: &mut String, base: Ghost<Seq<char>>, before: Ghost<Seq<char>>, text: &str, max: usize)
    requires
        old(draft)@ == lengthened(base@, before@, max as nat),
    ensures
        final(draft)@ == lengthened(base@, before@ + text@, max as nat),
{
    let n: usize = text.unicode_len();
    let mut i: usize = 0;
    assert(before@ + text@.take(0) =~= before@);
    while i < n
        invariant
            i <= n,
            n == text@.len(),
            draft@ == lengthened(base@, before@ + text@.take(i as int), max as nat),
        decreases n - i,
    {
        let piece = text.substring_char(i, i + 1);
        let c: Ghost<char> = Ghost(text@[i as int]);
        assert(piece@ =~= seq![c@]);
        proof {
            lemma_lengthened_push(base@, before@ + text@.take(i as int), c@, max as nat);
            assert(before@ + text@.take(i + 1) =~= (before@ + text@.take(i as int)).push(c@));
        }
        if draft.as_str().unicode_len() < max {
            let ghost shorter = draft@;
            draft.append(piece);
            assert(draft@ =~= shorter.push(c@));
        }
        i += 1;
    }
    assert(before@ + text@.take(n as int) =~= before@ + text@);
}

fn edit(draft: &String, keys: &Keys, typed: &Vec<String>, max: usize) -> (result: String)
    ensures
        result@ == edited(draft@, *keys, texts(typed@), max as nat),
{
    let mut result = draft.as_str().to_owned();
    if keys.has(Key::Backspace) {
        let n: usize = result.as_str().unicode_len();
        if n > 0 {
            let kept = result.as_str().substring_char(0, n - 1).to_owned();
            assert(kept@ =~= shortened(draft@));
            result = kept;
        }
    }
    let ghost base = result@;
    let ghost all = texts(typed@);
    let mut i: usize = 0;
    assert(all.take(0) =~= Seq::empty());
    assert(base + typed_text(all.take(0)) =~= base);
    while i < typed.len()
        invariant
            i <= typed.len(),
            all == texts(typed@),
            result@ == lengthened(base, typed_text(all.take(i as int)), max as nat),
        decreases typed.len() - i,
    {
        proof {
            assert(all.take(i + 1).drop_last() =~= all.take(i as int));
            assert(all.take(i + 1).last() == typed@[i as int]@);
        }
        add_text(&mut result, Ghost(base), Ghost(typed_text(all.take(i as int))), typed[i].as_str(), max);
        i += 1;
    }
    assert(all.take(typed.len() as int) =~= all);
    result
}

/// A frame of composing: `typed` are the texts of the keys that went down, `max` the length of the
/// longest proposal.
pub fn nl_compose_text_input(client: &mut Client, keys: &Keys, typed: &Vec<String>, max: usize) -> (command: Option<Command>)
    ensures
        final(client)@ == after_compose(old(client)@, *keys, texts(typed@), max as nat),
        final(client).units == old(client).units,
        order_view(command) == sent(old(client)@, *keys),
        command is Some <==> sent(old(client)@, *keys) is Some,
{
    if !client.ui.composing {
        return None;
    }
    if client.ui.just_activated {
        client.ui.just_activated = false;
        return None;
    }
    if keys.has(Key::Escape) {
        client.ui.composing = false;
        client.draft = String::new();
        return None;
    }
    if keys.has(Key::Enter) || keys.has(Key::NumpadEnter) {
        let text = client.draft.as_str().to_owned();
        client.ui.composing = false;
        client.draft = String::new();
        if client.ui.player.is_some() {
            if let Some(to) = client.ui.diplomacy_target {
                return Some(Command::Order(Action::ProposeInNaturalLanguage { to, text }));
            }
        }
        return None;
    }
    client.draft = edit(&client.draft, keys, typed, max);
    None
}

/// The key that begins the composing is not collected as text.
pub proof fn the_first_key_is_not_collected(state: ClientView, keys: Keys, typed: Seq<Seq<char>>, max: nat)
    requires
        state.ui.composing,
        state.ui.just_activated,
    ensures
        after_compose(state, keys, typed, max).draft == state.draft,
        !after_compose(state, keys, typed, max).ui.just_activated,
        sent(state, keys) is None,
{
}

/// A draft within the limit stays within it.
pub proof fn drafts_stay_within_the_limit(state: ClientView, keys: Keys, typed: Seq<Seq<char>>, max: nat)
    requires
        state.draft.len() <= max,
    ensures
        after_compose(state, keys, typed, max).draft.len() <= max,
{
}

/// What is sent is what was composed, and is sent once: the composing is over.
pub proof fn what_is_sent_is_the_draft(state: ClientView, keys: Keys, typed: Seq<Seq<char>>, max: nat)
    requires
        sent(state, keys) is Some,
    ensures
        sent(state, keys)->0 == (ActionView::Proposal { to: state.ui.diplomacy_target->0, text: state.draft }),
        !after_compose(state, keys, typed, max).ui.composing,
        after_compose(state, keys, typed, max).draft.len() == 0,
{
}

} // verus!
