//! What the server remembers of each space.

use crate::data_types::{
    address_map_view, contains_text, texts, AddressMapItem, AddressMapItemView, AgentId,
    AspectHash, EntryHash, Lib3hUri,
};
use crate::keyed::{distinct_keys, lemma_filter, lookup, put, without, TextMap};
use vstd::prelude::*;

verus! {

/// An entry's address with the address of one of its aspects.
pub type Aspect = (Seq<char>, Seq<char>);

/// The aspects after `aspect` was added, at the end unless it was there.
pub open spec fn with_aspect(aspects: Seq<Aspect>, aspect: Aspect) -> Seq<Aspect> {
    if aspects.contains(aspect) {
        aspects
    } else {
        aspects.push(aspect)
    }
}

/// Adding an aspect has it held, and keeps all others, in their places.
pub proof fn law_with_aspect(aspects: Seq<Aspect>, aspect: Aspect, other: Aspect)
    ensures
        with_aspect(aspects, aspect).contains(other) <==> aspects.contains(other) || other
            == aspect,
        aspects.is_prefix_of(with_aspect(aspects, aspect)),
        aspects.no_duplicates() ==> with_aspect(aspects, aspect).no_duplicates(),
{
    let after = with_aspect(aspects, aspect);
    assert(aspects =~= after.take(aspects.len() as int));
    if aspects.contains(other) {
        let i = choose|i: int| 0 <= i < aspects.len() && aspects[i] == other;
        assert(after[i] == other);
    }
    if !aspects.contains(aspect) {
        assert(after[aspects.len() as int] == aspect);
        if after.contains(other) && other != aspect {
            let i = choose|i: int| 0 <= i < after.len() && after[i] == other;
            assert(aspects[i] == other);
        }
    }
}

/// The aspects after the aspects `addresses` of `entry` were added one by one.
pub open spec fn with_entry_aspects(
    aspects: Seq<Aspect>,
    entry: Seq<char>,
    addresses: Seq<Seq<char>>,
) -> Seq<Aspect>
    decreases addresses.len(),
{
    if addresses.len() == 0 {
        aspects
    } else {
        with_aspect(
            with_entry_aspects(aspects, entry, addresses.drop_last()),
            (entry, addresses.last()),
        )
    }
}

/// The aspects that an address map lists, each once.
pub open spec fn listed_aspects(map: Seq<AddressMapItemView>) -> Seq<Aspect>
    decreases map.len(),
{
    if map.len() == 0 {
        Seq::empty()
    } else {
        with_entry_aspects(
            listed_aspects(map.drop_last()),
            map.last().entry_address,
            map.last().aspect_addresses,
        )
    }
}

/// The aspects of `aspects` that are not in `others`, in their order.
pub open spec fn aspects_missing(aspects: Seq<Aspect>, others: Seq<Aspect>) -> Seq<Aspect> {
    aspects.filter(|a: Aspect| !others.contains(a))
}

/// The entries that have an aspect in `aspects`, each once, in the order of their first aspect.
pub open spec fn entries_of(aspects: Seq<Aspect>) -> Seq<Seq<char>>
    decreases aspects.len(),
{
    if aspects.len() == 0 {
        Seq::empty()
    } else {
        let entries = entries_of(aspects.drop_last());
        if entries.contains(aspects.last().0) {
            entries
        } else {
            entries.push(aspects.last().0)
        }
    }
}

/// The aspects of one entry, in their order.
pub open spec fn aspects_of(aspects: Seq<Aspect>, entry: Seq<char>) -> Seq<Seq<char>>
    decreases aspects.len(),
{
    if aspects.len() == 0 {
        Seq::empty()
    } else {
        let earlier = aspects_of(aspects.drop_last(), entry);
        if aspects.last().0 == entry {
            earlier.push(aspects.last().1)
        } else {
            earlier
        }
    }
}

/// A list of entry aspects in which none occurs twice.
pub struct AspectList {
    aspects: Vec<(EntryHash, AspectHash)>,
}

impl View for AspectList {
    type V = Seq<Aspect>;

    closed spec fn view(&self) -> Seq<Aspect> {
        self.aspects@.map_values(|a: (EntryHash, AspectHash)| (a.0@, a.1@))
    }
}

impl AspectList {
    /// A list without aspects.
    pub fn new() -> (list: Self)
        ensures
            list@ == Seq::<Aspect>::empty(),
    {
        let list = AspectList { aspects: Vec::new() };
        assert(list@ =~= Seq::<Aspect>::empty());
        list
    }

    /// The aspects that an address map lists.
    pub fn from(map: &Vec<AddressMapItem>) -> (list: Self)
        ensures
            list@ == listed_aspects(address_map_view(map@)),
    {
        let mut list = AspectList::new();
        let ghost items = address_map_view(map@);
        assert(items.take(0) =~= Seq::<AddressMapItemView>::empty());
        for i in 0..map.len()
            invariant
                items == address_map_view(map@),
                list@ == listed_aspects(items.take(i as int)),
        {
            let item = &map[i];
            let ghost before = list@;
            let ghost addresses = texts(item.aspect_addresses@);
            assert(addresses.take(0) =~= Seq::<Seq<char>>::empty());
            for j in 0..item.aspect_addresses.len()
                invariant
                    addresses == texts(item.aspect_addresses@),
                    list@ == with_entry_aspects(
                        before,
                        item.entry_address@,
                        addresses.take(j as int),
                    ),
            {
                assert(addresses.take(j + 1).drop_last() =~= addresses.take(j as int));
                list.add(item.entry_address.clone(), item.aspect_addresses[j].clone());
            }
            assert(addresses.take(addresses.len() as int) =~= addresses);
            assert(items.take(i + 1).drop_last() =~= items.take(i as int));
            assert(items.take(i + 1).last() == item@);
        }
        assert(items.take(items.len() as int) =~= items);
        list
    }

    /// The list holds the aspect.
    pub fn contains(&self, entry_address: &EntryHash, aspect_address: &AspectHash) -> (found: bool)
        ensures
            found == self@.contains((entry_address@, aspect_address@)),
    {
        for i in 0..self.aspects.len()
            invariant
                forall|j: int|
                    0 <= j < i ==> #[trigger] self@[j] != (entry_address@, aspect_address@),
        {
            if self.aspects[i].0 == *entry_address && self.aspects[i].1 == *aspect_address {
                assert(self@[i as int] == (entry_address@, aspect_address@));
                return true;
            }
        }
        false
    }

    /// Adds an aspect, unless it is there.
    pub fn add(&mut self, entry_address: EntryHash, aspect_address: AspectHash)
        ensures
            final(self)@ == with_aspect(old(self)@, (entry_address@, aspect_address@)),
    {
        if !self.contains(&entry_address, &aspect_address) {
            self.aspects.push((entry_address, aspect_address));
            assert(self@ =~= old(self)@.push((entry_address@, aspect_address@)));
        }
    }

    /// The aspects of this list that are not in the other.
    pub fn diff(&self, other: &AspectList) -> (missing: AspectList)
        ensures
            missing@ == aspects_missing(self@, other@),
    {
        let mut missing = AspectList::new();
        let ghost absent = |a: Aspect| !other@.contains(a);
        assert(self@.take(0).filter(absent) =~= Seq::<Aspect>::empty());
        for i in 0..self.aspects.len()
            invariant
                absent == (|a: Aspect| !other@.contains(a)),
                missing@ == self@.take(i as int).filter(absent),
        {
            let ghost before = missing@;
            let ghost aspect = self@[i as int];
            if !other.contains(&self.aspects[i].0, &self.aspects[i].1) {
                missing.aspects.push((self.aspects[i].0.clone(), self.aspects[i].1.clone()));
                assert(missing@ =~= before.push(aspect));
            }
            assert(self@.take(i + 1).drop_last() =~= self@.take(i as int));
            reveal(Seq::filter);
        }
        assert(self@.take(self@.len() as int) =~= self@);
        missing
    }

    /// The entries that have an aspect in the list.
    pub fn entry_addresses(&self) -> (entries: Vec<EntryHash>)
        ensures
            texts(entries@) == entries_of(self@),
    {
        let mut entries: Vec<EntryHash> = Vec::new();
        assert(texts(entries@) =~= entries_of(self@.take(0)));
        for i in 0..self.aspects.len()
            invariant
                texts(entries@) == entries_of(self@.take(i as int)),
        {
            let entry = &self.aspects[i].0;
            assert(self@.take(i + 1).drop_last() =~= self@.take(i as int));
            if !contains_text(&entries, entry) {
                let ghost before = texts(entries@);
                entries.push(entry.clone());
                assert(texts(entries@) =~= before.push(entry@));
            }
        }
        assert(self@.take(self@.len() as int) =~= self@);
        entries
    }

    /// The aspects of one entry, or `None` if the list holds none of it.
    pub fn per_entry(&self, entry_address: &EntryHash) -> (addresses: Option<Vec<AspectHash>>)
        ensures
            match addresses {
                Some(list) => list@.len() > 0 && texts(list@) == aspects_of(
                    self@,
                    entry_address@,
                ),
                None => aspects_of(self@, entry_address@).len() == 0,
            },
    {
        let mut addresses: Vec<AspectHash> = Vec::new();
        assert(texts(addresses@) =~= aspects_of(self@.take(0), entry_address@));
        for i in 0..self.aspects.len()
            invariant
                texts(addresses@) == aspects_of(self@.take(i as int), entry_address@),
        {
            assert(self@.take(i + 1).drop_last() =~= self@.take(i as int));
            if self.aspects[i].0 == *entry_address {
                let ghost before = texts(addresses@);
                addresses.push(self.aspects[i].1.clone());
                assert(texts(addresses@) =~= before.push(self@[i as int].1));
            }
        }
        assert(self@.take(self@.len() as int) =~= self@);
        if addresses.len() == 0 {
            None
        } else {
            Some(addresses)
        }
    }
}

/// An agent, with its connection, is not `agent`.
pub open spec fn is_other_than(agent: Seq<char>) -> spec_fn((Seq<char>, Seq<char>)) -> bool {
    |a: (Seq<char>, Seq<char>)| a.0 != agent
}

/// An agent is found elsewhere than at the connection `uri`.
pub open spec fn is_elsewhere(uri: Seq<char>) -> spec_fn((Seq<char>, Seq<char>)) -> bool {
    |a: (Seq<char>, Seq<char>)| a.1 != uri
}

/// The agents of a space, each with the connection where it is found, in the order in which
/// they came; and the aspects that the space is known to hold.
#[verifier::ext_equal]
pub struct SpaceView {
    pub agents: Seq<(Seq<char>, Seq<char>)>,
    pub aspects: Seq<Aspect>,
}

impl SpaceView {
    /// A space without agents or aspects.
    pub open spec fn empty() -> SpaceView {
        SpaceView { agents: Seq::empty(), aspects: Seq::empty() }
    }

    /// An agent is in the space at most once, and an aspect is listed at most once.
    pub open spec fn wf(self) -> bool {
        &&& distinct_keys(self.agents)
        &&& self.aspects.no_duplicates()
    }

    /// The agents of the space but `agent`.
    pub open spec fn others(self, agent: Seq<char>) -> Seq<(Seq<char>, Seq<char>)> {
        self.agents.filter(is_other_than(agent))
    }

    /// The space once it holds `agent` at the connection `uri`.
    pub open spec fn with_agent(self, agent: Seq<char>, uri: Seq<char>) -> SpaceView {
        SpaceView { agents: put(self.agents, agent, uri), ..self }
    }

    /// The space once `agent` has left it.
    pub open spec fn without_agent(self, agent: Seq<char>) -> SpaceView {
        SpaceView { agents: without(self.agents, agent), ..self }
    }

    /// The space once nobody is found at the connection `uri`.
    pub open spec fn without_uri(self, uri: Seq<char>) -> SpaceView {
        SpaceView { agents: self.agents.filter(is_elsewhere(uri)), ..self }
    }
}

/// A space.
pub struct Space {
    agents: TextMap<Lib3hUri>,
    all_aspects: AspectList,
}

impl View for Space {
    type V = SpaceView;

    closed spec fn view(&self) -> SpaceView {
        SpaceView { agents: self.agents@, aspects: self.all_aspects@ }
    }
}

impl Space {
    /// A space without agents or aspects.
    pub fn new() -> (space: Self)
        ensures
            space@ == SpaceView::empty(),
            space@.wf(),
    {
        Space { agents: TextMap::new(), all_aspects: AspectList::new() }
    }

    /// Where `agent_id` is found.
    pub fn agent_id_to_uri(&self, agent_id: &AgentId) -> (uri: Option<Lib3hUri>)
        requires
            self@.wf(),
        ensures
            match uri {
                Some(u) => lookup(self@.agents, agent_id@) == Some(u@),
                None => lookup(self@.agents, agent_id@) is None,
            },
    {
        match self.agents.get(agent_id) {
            Some(uri) => Some(uri.clone()),
            None => None,
        }
    }

    /// Adds an agent, or moves it to another connection.
    pub fn join_agent(&mut self, agent_id: AgentId, uri: Lib3hUri)
        requires
            old(self)@.wf(),
        ensures
            final(self)@ == old(self)@.with_agent(agent_id@, uri@),
            final(self)@.wf(),
    {
        let _ = self.agents.insert(agent_id, uri);
    }

    /// Removes an agent.
    pub fn remove_agent(&mut self, agent_id: &AgentId)
        requires
            old(self)@.wf(),
        ensures
            final(self)@ == old(self)@.without_agent(agent_id@),
            final(self)@.wf(),
    {
        let _ = self.agents.remove(agent_id);
    }

    /// Removes whoever is found at a connection.
    pub fn remove_uri(&mut self, uri: &Lib3hUri)
        requires
            old(self)@.wf(),
        ensures
            final(self)@ == old(self)@.without_uri(uri@),
            final(self)@.wf(),
    {
        let ghost all = self.agents@;
        let ghost keep = is_elsewhere(uri@);
        let n: usize = self.agents.len();
        let mut kept: usize = 0;
        proof {
            reveal(Seq::filter);
            lemma_filter(all, keep);
            assert(all.take(0).filter(keep) =~= Seq::empty());
            assert(self.agents@ =~= all.take(0).filter(keep) + all.skip(0));
        }
        for i in 0..n
            invariant
                n == all.len(),
                keep == is_elsewhere(uri@),
                kept == all.take(i as int).filter(keep).len(),
                self.agents@ == all.take(i as int).filter(keep) + all.skip(i as int),
                self.all_aspects == old(self).all_aspects,
        {
            let ghost before = all.take(i as int).filter(keep);
            proof {
                reveal(Seq::filter);
                assert(all.take(i + 1).drop_last() =~= all.take(i as int));
                assert(self.agents@[kept as int] == all[i as int]);
            }
            if *self.agents.value_at(kept) == *uri {
                self.agents.remove_at(kept);
                assert(self.agents@ =~= before + all.skip(i + 1));
            } else {
                kept += 1;
                assert(self.agents@ =~= before.push(all[i as int]) + all.skip(i + 1));
            }
        }
        assert(all.take(all.len() as int) =~= all);
        assert(self.agents@ =~= all.filter(keep));
    }

    /// The agents, each with its connection.
    pub fn all_agents(&self) -> (agents: &TextMap<Lib3hUri>)
        ensures
            agents@ == self@.agents,
    {
        &self.agents
    }

    /// The aspects that the space is known to hold.
    pub fn all_aspects(&self) -> (aspects: &AspectList)
        ensures
            aspects@ == self@.aspects,
    {
        &self.all_aspects
    }

    /// Notes an aspect.
    pub fn add_aspect(&mut self, entry_address: EntryHash, aspect_address: AspectHash)
        requires
            old(self)@.wf(),
        ensures
            final(self)@ == (SpaceView {
                aspects: with_aspect(old(self)@.aspects, (entry_address@, aspect_address@)),
                ..old(self)@
            }),
            final(self)@.wf(),
    {
        self.all_aspects.add(entry_address, aspect_address);
    }
}

} // verus!
