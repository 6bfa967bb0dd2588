//! What holds of the way in which the agents of a space are brought to hold the same aspects.

use crate::cache::{
    aspects_missing, aspects_of, entries_of, listed_aspects, with_entry_aspects, Aspect,
};
use crate::data_types::{
    AddressMapItemView, EntryDataView, EntryListDataView, FetchEntryResultDataView,
};
use crate::effect::{sent, EffectView};
use crate::invariants::lemma_with_entry_aspects;
use crate::laws::{law_store_count, law_store_reaches_each};
use crate::rules::{
    aspect_addresses, fetch_effects, fetch_message, joined_effects, joined_result, joined_state,
    publish_state, store_message, ServerState,
};
use crate::wire_message::{Lib3hToClientResponseView, Lib3hToClientView, WireMessageView};
use vstd::prelude::*;

verus! {

/// The difference of two lists holds what is in the one and not in the other, each once.
pub proof fn law_missing(aspects: Seq<Aspect>, others: Seq<Aspect>)
    ensures
        forall|a: Aspect| #[trigger]
            aspects_missing(aspects, others).contains(a) <==> aspects.contains(a)
                && !others.contains(a),
        aspects.no_duplicates() ==> aspects_missing(aspects, others).no_duplicates(),
    decreases aspects.len(),
{
    let keep = |a: Aspect| !others.contains(a);
    reveal(Seq::filter);
    if aspects.len() > 0 {
        let shorter = aspects.drop_last();
        law_missing(shorter, others);
        let earlier = aspects_missing(shorter, others);
        let missing = aspects_missing(aspects, others);
        let last = aspects.last();
        assert(aspects =~= shorter.push(last));
        assert forall|a: Aspect| #[trigger] missing.contains(a) <==> aspects.contains(a)
            && !others.contains(a) by {
            lemma_push_contains(shorter, last, a);
            lemma_push_contains(earlier, last, a);
        }
        if aspects.no_duplicates() {
            if shorter.contains(last) {
                let i = choose|i: int| 0 <= i < shorter.len() && shorter[i] == last;
                assert(aspects[i] == aspects[aspects.len() - 1]);
            }
            assert(shorter.no_duplicates());
            assert(!earlier.contains(last));
        }
    } else {
        assert(aspects_missing(aspects, others) =~= Seq::<Aspect>::empty());
    }
}

proof fn lemma_push_contains<A>(s: Seq<A>, last: A, a: A)
    ensures
        s.push(last).contains(a) <==> s.contains(a) || a == last,
{
    let longer = s.push(last);
    if s.contains(a) {
        let i = choose|i: int| 0 <= i < s.len() && s[i] == a;
        assert(longer[i] == a);
    }
    if a == last {
        assert(longer[s.len() as int] == a);
    }
    if longer.contains(a) && a != last {
        let i = choose|i: int| 0 <= i < longer.len() && longer[i] == a;
        assert(s[i] == a);
    }
}

/// The address map lists the aspect.
pub open spec fn lists(map: Seq<AddressMapItemView>, aspect: Aspect) -> bool {
    exists|i: int|
        0 <= i < map.len() && (#[trigger] map[i]).entry_address == aspect.0
            && map[i].aspect_addresses.contains(aspect.1)
}

/// The list that is made of an address map holds what the map lists, each once.
pub proof fn law_listed(map: Seq<AddressMapItemView>)
    ensures
        listed_aspects(map).no_duplicates(),
        forall|a: Aspect| #[trigger] listed_aspects(map).contains(a) <==> lists(map, a),
    decreases map.len(),
{
    if map.len() > 0 {
        let shorter = map.drop_last();
        let last = map.last();
        law_listed(shorter);
        lemma_with_entry_aspects(
            listed_aspects(shorter),
            last.entry_address,
            last.aspect_addresses,
        );
        assert forall|a: Aspect| #[trigger] listed_aspects(map).contains(a) <==> lists(map, a) by {
            if lists(shorter, a) {
                let i = choose|i: int|
                    0 <= i < shorter.len() && (#[trigger] shorter[i]).entry_address == a.0
                        && shorter[i].aspect_addresses.contains(a.1);
                assert(map[i] == shorter[i]);
            }
            if a.0 == last.entry_address && last.aspect_addresses.contains(a.1) {
                assert(map[map.len() - 1] == last);
            }
            if lists(map, a) {
                let i = choose|i: int|
                    0 <= i < map.len() && (#[trigger] map[i]).entry_address == a.0
                        && map[i].aspect_addresses.contains(a.1);
                if i < shorter.len() {
                    assert(shorter[i] == map[i]);
                }
            }
        }
    }
}

/// A list of aspects, taken apart by entries, holds what it held: each entry occurs once, and
/// has the aspects that the list holds of it, each once if the list holds none twice.
pub proof fn law_entries(aspects: Seq<Aspect>)
    ensures
        entries_of(aspects).no_duplicates(),
        forall|e: Seq<char>| #[trigger]
            entries_of(aspects).contains(e) <==> aspects_of(aspects, e).len() > 0,
        forall|e: Seq<char>, a: Seq<char>| #[trigger]
            aspects_of(aspects, e).contains(a) <==> aspects.contains((e, a)),
        aspects.no_duplicates() ==> forall|e: Seq<char>|
            (#[trigger] aspects_of(aspects, e)).no_duplicates(),
    decreases aspects.len(),
{
    if aspects.len() > 0 {
        let shorter = aspects.drop_last();
        let last = aspects.last();
        law_entries(shorter);
        assert(aspects =~= shorter.push(last));
        assert forall|e: Seq<char>| #[trigger] entries_of(aspects).contains(e) <==> aspects_of(
            aspects,
            e,
        ).len() > 0 by {
            lemma_push_contains(entries_of(shorter), last.0, e);
        }
        assert forall|e: Seq<char>, a: Seq<char>| #[trigger]
            aspects_of(aspects, e).contains(a) <==> aspects.contains((e, a)) by {
            lemma_push_contains(aspects_of(shorter, e), last.1, a);
            lemma_push_contains(shorter, last, (e, a));
        }
        if aspects.no_duplicates() {
            if shorter.contains(last) {
                let i = choose|i: int| 0 <= i < shorter.len() && shorter[i] == last;
                assert(aspects[i] == aspects[aspects.len() - 1]);
            }
            assert(shorter.no_duplicates());
            assert forall|e: Seq<char>| (#[trigger] aspects_of(aspects, e)).no_duplicates() by {
                assert((last.0, last.1) == last);
                assert(aspects_of(shorter, e).no_duplicates());
                assert(!aspects_of(shorter, last.0).contains(last.1));
            }
        }
    }
}

/// Among the effects is a request to an agent for an aspect.
pub open spec fn requested(
    out: Seq<EffectView>,
    provider: Seq<char>,
    uri: Seq<char>,
    request_id: Seq<char>,
    aspect: Aspect,
) -> bool {
    exists|i: int|
        0 <= i < out.len() && asks_for(#[trigger] out[i], provider, uri, request_id, aspect)
}

/// The effect is a request to an agent for an aspect.
pub open spec fn asks_for(
    effect: EffectView,
    provider: Seq<char>,
    uri: Seq<char>,
    request_id: Seq<char>,
    aspect: Aspect,
) -> bool {
    effect matches EffectView::Send {
        agent,
        uri: at,
        message: WireMessageView::Lib3hToClient(Lib3hToClientView::HandleFetchEntry(data)),
        ..
    } && agent == provider && at == uri && data.request_id == request_id && data.entry_address
        == aspect.0 && (data.aspect_address_list matches Some(list) && list.contains(aspect.1))
}

/// Just the aspects that are wanted are requested.
pub proof fn law_fetch_requests_what_is_wanted(
    uri: Seq<char>,
    space: Seq<char>,
    provider: Seq<char>,
    request_id: Seq<char>,
    wanted: Seq<Aspect>,
    aspect: Aspect,
)
    ensures
        requested(
            fetch_effects(uri, space, provider, request_id, wanted),
            provider,
            uri,
            request_id,
            aspect,
        ) <==> wanted.contains(aspect),
{
    let out = fetch_effects(uri, space, provider, request_id, wanted);
    law_entries(wanted);
    let entries = entries_of(wanted);
    assert((aspect.0, aspect.1) == aspect);
    if wanted.contains(aspect) {
        assert(aspects_of(wanted, aspect.0).contains(aspect.1));
        assert(entries.contains(aspect.0));
        let i = choose|i: int| 0 <= i < entries.len() && entries[i] == aspect.0;
        assert(out[i] == sent(
            provider,
            uri,
            fetch_message(space, provider, request_id, entries[i], aspects_of(wanted, entries[i])),
        ));
        assert(asks_for(out[i], provider, uri, request_id, aspect));
    }
    if requested(out, provider, uri, request_id, aspect) {
        let i = choose|i: int|
            0 <= i < out.len() && asks_for(#[trigger] out[i], provider, uri, request_id, aspect);
        assert(out[i] == sent(
            provider,
            uri,
            fetch_message(space, provider, request_id, entries[i], aspects_of(wanted, entries[i])),
        ));
        assert(aspects_of(wanted, aspect.0).contains(aspect.1));
    }
}

/// An agent's answer with the entries that it authored.
pub open spec fn authoring_answer(data: EntryListDataView) -> WireMessageView {
    WireMessageView::Lib3hToClientResponse(
        Lib3hToClientResponseView::HandleGetAuthoringEntryListResult(data),
    )
}

/// An agent's answer with the entries that it holds.
pub open spec fn gossiping_answer(data: EntryListDataView) -> WireMessageView {
    WireMessageView::Lib3hToClientResponse(
        Lib3hToClientResponseView::HandleGetGossipingEntryListResult(data),
    )
}

/// An agent's answer with the content of aspects.
pub open spec fn fetch_answer(data: FetchEntryResultDataView) -> WireMessageView {
    WireMessageView::Lib3hToClientResponse(Lib3hToClientResponseView::HandleFetchEntryResult(data))
}

/// An author is asked for just those aspects that it lists and the space does not know.
pub proof fn law_author_is_asked_for_the_unseen(
    s: ServerState,
    uri: Seq<char>,
    space: Seq<char>,
    agent: Seq<char>,
    data: EntryListDataView,
    aspect: Aspect,
)
    requires
        joined_result(s, uri, space, agent, authoring_answer(data)) is Ok,
    ensures
        requested(
            joined_effects(s, uri, space, agent, authoring_answer(data), 0),
            agent,
            uri,
            Seq::empty(),
            aspect,
        ) <==> lists(data.address_map, aspect) && !s.space(space).aspects.contains(aspect),
{
    let listed = listed_aspects(data.address_map);
    let wanted = aspects_missing(listed, s.space(space).aspects);
    law_listed(data.address_map);
    law_missing(listed, s.space(space).aspects);
    law_fetch_requests_what_is_wanted(uri, space, agent, Seq::empty(), wanted, aspect);
}

/// The agent that is chosen to help another out is asked for just those aspects that the space
/// knows and the other does not list, in the name of the other.
pub proof fn law_chosen_agent_is_asked_for_the_missing(
    s: ServerState,
    uri: Seq<char>,
    space: Seq<char>,
    agent: Seq<char>,
    data: EntryListDataView,
    pick: int,
    aspect: Aspect,
)
    requires
        joined_result(s, uri, space, agent, gossiping_answer(data)) is Ok,
        s.space(space).agents.len() != 1,
        0 <= pick < s.space(space).others(agent).len(),
    ensures
        ({
            let chosen = s.space(space).others(agent)[pick];
            requested(
                joined_effects(s, uri, space, agent, gossiping_answer(data), pick),
                chosen.0,
                chosen.1,
                agent,
                aspect,
            ) <==> s.space(space).aspects.contains(aspect) && !lists(data.address_map, aspect)
        }),
{
    let chosen = s.space(space).others(agent)[pick];
    let listed = listed_aspects(data.address_map);
    let wanted = aspects_missing(s.space(space).aspects, listed);
    law_listed(data.address_map);
    law_missing(s.space(space).aspects, listed);
    law_fetch_requests_what_is_wanted(chosen.1, space, chosen.0, agent, wanted, aspect);
}

/// Once an entry was published to a space, the space knows its aspects and those that it knew,
/// and no others.
pub proof fn law_published_aspects_are_known(
    s: ServerState,
    space: Seq<char>,
    entry: EntryDataView,
    aspect: Aspect,
)
    requires
        s.wf(),
        s.spaces.contains_key(space),
    ensures
        publish_state(s, space, entry).space(space).aspects.contains(aspect) <==> s.space(
            space,
        ).aspects.contains(aspect) || (aspect.0 == entry.entry_address && aspect_addresses(
            entry.aspect_list,
        ).contains(aspect.1)),
{
    lemma_with_entry_aspects(
        s.space(space).aspects,
        entry.entry_address,
        aspect_addresses(entry.aspect_list),
    );
}

proof fn lemma_known_aspects_stay(
    aspects: Seq<Aspect>,
    entry: Seq<char>,
    addresses: Seq<Seq<char>>,
)
    requires
        forall|i: int|
            0 <= i < addresses.len() ==> aspects.contains((entry, #[trigger] addresses[i])),
    ensures
        with_entry_aspects(aspects, entry, addresses) == aspects,
    decreases addresses.len(),
{
    if addresses.len() > 0 {
        let shorter = addresses.drop_last();
        assert forall|i: int| 0 <= i < shorter.len() implies aspects.contains(
            (entry, #[trigger] shorter[i]),
        ) by {
            assert(addresses[i] == shorter[i]);
        }
        lemma_known_aspects_stay(aspects, entry, shorter);
        assert(addresses[addresses.len() - 1] == addresses.last());
    }
}

/// To publish an entry again teaches the space nothing.
pub proof fn law_publishing_twice_is_publishing_once(
    s: ServerState,
    space: Seq<char>,
    entry: EntryDataView,
)
    requires
        s.wf(),
    ensures
        publish_state(publish_state(s, space, entry), space, entry) == publish_state(
            s,
            space,
            entry,
        ),
{
    let once = publish_state(s, space, entry);
    let addresses = aspect_addresses(entry.aspect_list);
    if s.spaces.contains_key(space) {
        assert forall|i: int| 0 <= i < addresses.len() implies once.space(space).aspects.contains(
            (entry.entry_address, #[trigger] addresses[i]),
        ) by {
            assert(addresses.contains(addresses[i]));
            law_published_aspects_are_known(s, space, entry, (entry.entry_address, addresses[i]));
        }
        lemma_known_aspects_stay(once.space(space).aspects, entry.entry_address, addresses);
    }
    assert(publish_state(once, space, entry) =~= once);
}

/// What an author has handed over it is not asked for again.
pub proof fn law_fetched_is_not_asked_for_again(
    s: ServerState,
    uri: Seq<char>,
    space: Seq<char>,
    agent: Seq<char>,
    fetched: FetchEntryResultDataView,
    data: EntryListDataView,
    aspect: Aspect,
)
    requires
        s.wf(),
        s.spaces.contains_key(space),
        joined_result(s, uri, space, agent, fetch_answer(fetched)) is Ok,
        joined_result(s, uri, space, agent, authoring_answer(data)) is Ok,
        fetched.request_id.len() == 0,
        aspect.0 == fetched.entry.entry_address,
        aspect_addresses(fetched.entry.aspect_list).contains(aspect.1),
    ensures
        !requested(
            joined_effects(
                joined_state(s, uri, space, agent, fetch_answer(fetched)),
                uri,
                space,
                agent,
                authoring_answer(data),
                0,
            ),
            agent,
            uri,
            Seq::empty(),
            aspect,
        ),
{
    let after = joined_state(s, uri, space, agent, fetch_answer(fetched));
    law_published_aspects_are_known(s, space, fetched.entry, aspect);
    law_author_is_asked_for_the_unseen(after, uri, space, agent, data, aspect);
}

/// What the chosen agent hands over in the name of another goes, aspect by aspect, to that
/// other agent, in the place where it is found, and to nobody else; the server learns nothing.
pub proof fn law_answer_reaches_the_asker(
    s: ServerState,
    uri: Seq<char>,
    space: Seq<char>,
    helper: Seq<char>,
    asker: Seq<char>,
    fetched: FetchEntryResultDataView,
)
    requires
        joined_result(s, uri, space, helper, fetch_answer(fetched)) is Ok,
        fetched.request_id == asker,
        asker.len() > 0,
        s.uri_of(space, asker) is Some,
    ensures
        joined_state(s, uri, space, helper, fetch_answer(fetched)) == s,
        ({
            let out = joined_effects(s, uri, space, helper, fetch_answer(fetched), 0);
            &&& out.len() == fetched.entry.aspect_list.len()
            &&& forall|k: int|
                0 <= k < out.len() ==> #[trigger] out[k] == sent(
                    asker,
                    s.uri_of(space, asker)->0,
                    store_message(
                        space,
                        helper,
                        fetched.entry.entry_address,
                        fetched.entry.aspect_list[k],
                    ),
                )
        }),
{
    let to = seq![(asker, s.uri_of(space, asker)->0)];
    let out = joined_effects(s, uri, space, helper, fetch_answer(fetched), 0);
    let aspects = fetched.entry.aspect_list;
    law_store_count(to, space, helper, fetched.entry.entry_address, aspects);
    assert(aspects.len() * to.len() == aspects.len()) by (nonlinear_arith)
        requires
            to.len() == 1,
    ;
    assert forall|k: int| 0 <= k < out.len() implies #[trigger] out[k] == sent(
        asker,
        s.uri_of(space, asker)->0,
        store_message(space, helper, fetched.entry.entry_address, aspects[k]),
    ) by {
        law_store_reaches_each(to, space, helper, fetched.entry.entry_address, aspects, k, 0);
        assert(k * to.len() + 0 == k) by (nonlinear_arith)
            requires
                to.len() == 1,
        ;
    }
}

} // verus!
