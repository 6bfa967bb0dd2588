//! The data that messages carry between agents and the server.
//!
//! Identifiers are kept as text. Each type has a view in which text is a sequence of
//! characters and a vector is a sequence, and contracts speak of those views.

use vstd::prelude::*;

verus! {

/// The public key by which an agent is known.
pub type AgentId = String;

/// The address of a space.
pub type SpaceHash = String;

/// The address of one connection of the transport.
pub type Lib3hUri = String;

/// The address of an entry.
pub type EntryHash = String;

/// The address of one aspect of an entry.
pub type AspectHash = String;

/// The characters of each of a sequence of texts.
pub open spec fn texts(v: Seq<String>) -> Seq<Seq<char>> {
    v.map_values(|s: String| s@)
}

/// Copies a vector of texts.
pub fn clone_texts(v: &Vec<String>) -> (copy: Vec<String>)
    ensures
        texts(copy@) == texts(v@),
{
    let copy = v.clone();
    assert forall|i: int| 0 <= i < v@.len() implies copy@[i]@ == v@[i]@ by {
        assert(cloned::<String>(v@[i], copy@[i]));
    }
    assert(texts(copy@) =~= texts(v@));
    copy
}

/// A text is one of those in the vector.
pub fn contains_text(v: &Vec<String>, text: &String) -> (found: bool)
    ensures
        found == texts(v@).contains(text@),
{
    for i in 0..v.len()
        invariant
            forall|j: int| 0 <= j < i ==> #[trigger] texts(v@)[j] != text@,
    {
        if v[i] == *text {
            assert(texts(v@)[i as int] == text@);
            return true;
        }
    }
    false
}

/// Which agent enters or leaves which space.
#[derive(Debug, PartialEq, Eq)]
pub struct SpaceData {
    pub request_id: String,
    pub space_address: SpaceHash,
    pub agent_id: AgentId,
}

#[verifier::ext_equal]
pub struct SpaceDataView {
    pub request_id: Seq<char>,
    pub space_address: Seq<char>,
    pub agent_id: Seq<char>,
}

impl View for SpaceData {
    type V = SpaceDataView;

    open spec fn view(&self) -> SpaceDataView {
        SpaceDataView {
            request_id: self.request_id@,
            space_address: self.space_address@,
            agent_id: self.agent_id@,
        }
    }
}

impl Clone for SpaceData {
    fn clone(&self) -> (copy: Self)
        ensures
            copy@ == self@,
    {
        SpaceData {
            request_id: self.request_id.clone(),
            space_address: self.space_address.clone(),
            agent_id: self.agent_id.clone(),
        }
    }
}

/// A message from one agent of a space to another.
#[derive(Debug, PartialEq, Eq)]
pub struct DirectMessageData {
    pub space_address: SpaceHash,
    pub request_id: String,
    pub to_agent_id: AgentId,
    pub from_agent_id: AgentId,
    pub content: Vec<u8>,
}

#[verifier::ext_equal]
pub struct DirectMessageDataView {
    pub space_address: Seq<char>,
    pub request_id: Seq<char>,
    pub to_agent_id: Seq<char>,
    pub from_agent_id: Seq<char>,
    pub content: Seq<u8>,
}

impl View for DirectMessageData {
    type V = DirectMessageDataView;

    open spec fn view(&self) -> DirectMessageDataView {
        DirectMessageDataView {
            space_address: self.space_address@,
            request_id: self.request_id@,
            to_agent_id: self.to_agent_id@,
            from_agent_id: self.from_agent_id@,
            content: self.content@,
        }
    }
}

impl Clone for DirectMessageData {
    fn clone(&self) -> (copy: Self)
        ensures
            copy@ == self@,
    {
        let content = self.content.clone();
        assert(content@ =~= self.content@);
        DirectMessageData {
            space_address: self.space_address.clone(),
            request_id: self.request_id.clone(),
            to_agent_id: self.to_agent_id.clone(),
            from_agent_id: self.from_agent_id.clone(),
            content,
        }
    }
}

/// One aspect of an entry, with its content.
#[derive(Debug, PartialEq, Eq)]
pub struct EntryAspectData {
    pub aspect_address: AspectHash,
    pub type_hint: String,
    pub aspect: Vec<u8>,
    pub publish_ts: u64,
}

#[verifier::ext_equal]
pub struct EntryAspectDataView {
    pub aspect_address: Seq<char>,
    pub type_hint: Seq<char>,
    pub aspect: Seq<u8>,
    pub publish_ts: u64,
}

impl View for EntryAspectData {
    type V = EntryAspectDataView;

    open spec fn view(&self) -> EntryAspectDataView {
        EntryAspectDataView {
            aspect_address: self.aspect_address@,
            type_hint: self.type_hint@,
            aspect: self.aspect@,
            publish_ts: self.publish_ts,
        }
    }
}

impl Clone for EntryAspectData {
    fn clone(&self) -> (copy: Self)
        ensures
            copy@ == self@,
    {
        let aspect = self.aspect.clone();
        assert(aspect@ =~= self.aspect@);
        EntryAspectData {
            aspect_address: self.aspect_address.clone(),
            type_hint: self.type_hint.clone(),
            aspect,
            publish_ts: self.publish_ts,
        }
    }
}

/// An entry and those of its aspects that are at hand.
#[derive(Debug, PartialEq, Eq)]
pub struct EntryData {
    pub entry_address: EntryHash,
    pub aspect_list: Vec<EntryAspectData>,
}

#[verifier::ext_equal]
pub struct EntryDataView {
    pub entry_address: Seq<char>,
    pub aspect_list: Seq<EntryAspectDataView>,
}

impl View for EntryData {
    type V = EntryDataView;

    open spec fn view(&self) -> EntryDataView {
        EntryDataView {
            entry_address: self.entry_address@,
            aspect_list: self.aspect_list@.map_values(|a: EntryAspectData| a@),
        }
    }
}

impl Clone for EntryData {
    fn clone(&self) -> (copy: Self)
        ensures
            copy@ == self@,
    {
        let aspect_list = self.aspect_list.clone();
        assert forall|i: int| 0 <= i < self.aspect_list@.len() implies aspect_list@[i]@
            == self.aspect_list@[i]@ by {
            assert(cloned::<EntryAspectData>(self.aspect_list@[i], aspect_list@[i]));
        }
        let copy = EntryData { entry_address: self.entry_address.clone(), aspect_list };
        assert(copy@.aspect_list =~= self@.aspect_list);
        copy
    }
}

/// An entry that an agent publishes to a space.
#[derive(Debug, PartialEq, Eq)]
pub struct ProvidedEntryData {
    pub space_address: SpaceHash,
    pub provider_agent_id: AgentId,
    pub entry: EntryData,
}

#[verifier::ext_equal]
pub struct ProvidedEntryDataView {
    pub space_address: Seq<char>,
    pub provider_agent_id: Seq<char>,
    pub entry: EntryDataView,
}

impl View for ProvidedEntryData {
    type V = ProvidedEntryDataView;

    open spec fn view(&self) -> ProvidedEntryDataView {
        ProvidedEntryDataView {
            space_address: self.space_address@,
            provider_agent_id: self.provider_agent_id@,
            entry: self.entry@,
        }
    }
}

impl Clone for ProvidedEntryData {
    fn clone(&self) -> (copy: Self)
        ensures
            copy@ == self@,
    {
        ProvidedEntryData {
            space_address: self.space_address.clone(),
            provider_agent_id: self.provider_agent_id.clone(),
            entry: self.entry.clone(),
        }
    }
}

/// A request for one of an agent's lists of entries.
#[derive(Debug, PartialEq, Eq)]
pub struct GetListData {
    pub space_address: SpaceHash,
    pub provider_agent_id: AgentId,
    pub request_id: String,
}

#[verifier::ext_equal]
pub struct GetListDataView {
    pub space_address: Seq<char>,
    pub provider_agent_id: Seq<char>,
    pub request_id: Seq<char>,
}

impl View for GetListData {
    type V = GetListDataView;

    open spec fn view(&self) -> GetListDataView {
        GetListDataView {
            space_address: self.space_address@,
            provider_agent_id: self.provider_agent_id@,
            request_id: self.request_id@,
        }
    }
}

impl Clone for GetListData {
    fn clone(&self) -> (copy: Self)
        ensures
            copy@ == self@,
    {
        GetListData {
            space_address: self.space_address.clone(),
            provider_agent_id: self.provider_agent_id.clone(),
            request_id: self.request_id.clone(),
        }
    }
}

/// The aspects that an agent has of one entry.
#[derive(Debug, PartialEq, Eq)]
pub struct AddressMapItem {
    pub entry_address: EntryHash,
    pub aspect_addresses: Vec<AspectHash>,
}

#[verifier::ext_equal]
pub struct AddressMapItemView {
    pub entry_address: Seq<char>,
    pub aspect_addresses: Seq<Seq<char>>,
}

impl View for AddressMapItem {
    type V = AddressMapItemView;

    open spec fn view(&self) -> AddressMapItemView {
        AddressMapItemView {
            entry_address: self.entry_address@,
            aspect_addresses: texts(self.aspect_addresses@),
        }
    }
}

impl Clone for AddressMapItem {
    fn clone(&self) -> (copy: Self)
        ensures
            copy@ == self@,
    {
        AddressMapItem {
            entry_address: self.entry_address.clone(),
            aspect_addresses: clone_texts(&self.aspect_addresses),
        }
    }
}

/// The view of an address map, item by item.
pub open spec fn address_map_view(map: Seq<AddressMapItem>) -> Seq<AddressMapItemView> {
    map.map_values(|item: AddressMapItem| item@)
}

/// An agent's answer to a request for one of its lists of entries.
#[derive(Debug, PartialEq, Eq)]
pub struct EntryListData {
    pub space_address: SpaceHash,
    pub provider_agent_id: AgentId,
    pub request_id: String,
    pub address_map: Vec<AddressMapItem>,
}

#[verifier::ext_equal]
pub struct EntryListDataView {
    pub space_address: Seq<char>,
    pub provider_agent_id: Seq<char>,
    pub request_id: Seq<char>,
    pub address_map: Seq<AddressMapItemView>,
}

impl View for EntryListData {
    type V = EntryListDataView;

    open spec fn view(&self) -> EntryListDataView {
        EntryListDataView {
            space_address: self.space_address@,
            provider_agent_id: self.provider_agent_id@,
            request_id: self.request_id@,
            address_map: address_map_view(self.address_map@),
        }
    }
}

impl Clone for EntryListData {
    fn clone(&self) -> (copy: Self)
        ensures
            copy@ == self@,
    {
        let address_map = self.address_map.clone();
        assert forall|i: int| 0 <= i < self.address_map@.len() implies address_map@[i]@
            == self.address_map@[i]@ by {
            assert(cloned::<AddressMapItem>(self.address_map@[i], address_map@[i]));
        }
        assert(address_map_view(address_map@) =~= address_map_view(self.address_map@));
        EntryListData {
            space_address: self.space_address.clone(),
            provider_agent_id: self.provider_agent_id.clone(),
            request_id: self.request_id.clone(),
            address_map,
        }
    }
}

/// A request for the content of some aspects of an entry.
#[derive(Debug, PartialEq, Eq)]
pub struct FetchEntryData {
    pub space_address: SpaceHash,
    pub entry_address: EntryHash,
    pub request_id: String,
    pub provider_agent_id: AgentId,
    pub aspect_address_list: Option<Vec<AspectHash>>,
}

#[verifier::ext_equal]
pub struct FetchEntryDataView {
    pub space_address: Seq<char>,
    pub entry_address: Seq<char>,
    pub request_id: Seq<char>,
    pub provider_agent_id: Seq<char>,
    pub aspect_address_list: Option<Seq<Seq<char>>>,
}

impl View for FetchEntryData {
    type V = FetchEntryDataView;

    open spec fn view(&self) -> FetchEntryDataView {
        FetchEntryDataView {
            space_address: self.space_address@,
            entry_address: self.entry_address@,
            request_id: self.request_id@,
            provider_agent_id: self.provider_agent_id@,
            aspect_address_list: match self.aspect_address_list {
                Some(list) => Some(texts(list@)),
                None => None,
            },
        }
    }
}

impl Clone for FetchEntryData {
    fn clone(&self) -> (copy: Self)
        ensures
            copy@ == self@,
    {
        FetchEntryData {
            space_address: self.space_address.clone(),
            entry_address: self.entry_address.clone(),
            request_id: self.request_id.clone(),
            provider_agent_id: self.provider_agent_id.clone(),
            aspect_address_list: match &self.aspect_address_list {
                Some(list) => Some(clone_texts(list)),
                None => None,
            },
        }
    }
}

/// An agent's answer to a request for the content of aspects.
#[derive(Debug, PartialEq, Eq)]
pub struct FetchEntryResultData {
    pub space_address: SpaceHash,
    pub provider_agent_id: AgentId,
    pub request_id: String,
    pub entry: EntryData,
}

#[verifier::ext_equal]
pub struct FetchEntryResultDataView {
    pub space_address: Seq<char>,
    pub provider_agent_id: Seq<char>,
    pub request_id: Seq<char>,
    pub entry: EntryDataView,
}

impl View for FetchEntryResultData {
    type V = FetchEntryResultDataView;

    open spec fn view(&self) -> FetchEntryResultDataView {
        FetchEntryResultDataView {
            space_address: self.space_address@,
            provider_agent_id: self.provider_agent_id@,
            request_id: self.request_id@,
            entry: self.entry@,
        }
    }
}

impl Clone for FetchEntryResultData {
    fn clone(&self) -> (copy: Self)
        ensures
            copy@ == self@,
    {
        FetchEntryResultData {
            space_address: self.space_address.clone(),
            provider_agent_id: self.provider_agent_id.clone(),
            request_id: self.request_id.clone(),
            entry: self.entry.clone(),
        }
    }
}

/// An aspect that an agent is told to store.
#[derive(Debug, PartialEq, Eq)]
pub struct StoreEntryAspectData {
    pub request_id: String,
    pub space_address: SpaceHash,
    pub provider_agent_id: AgentId,
    pub entry_address: EntryHash,
    pub entry_aspect: EntryAspectData,
}

#[verifier::ext_equal]
pub struct StoreEntryAspectDataView {
    pub request_id: Seq<char>,
    pub space_address: Seq<char>,
    pub provider_agent_id: Seq<char>,
    pub entry_address: Seq<char>,
    pub entry_aspect: EntryAspectDataView,
}

impl View for StoreEntryAspectData {
    type V = StoreEntryAspectDataView;

    open spec fn view(&self) -> StoreEntryAspectDataView {
        StoreEntryAspectDataView {
            request_id: self.request_id@,
            space_address: self.space_address@,
            provider_agent_id: self.provider_agent_id@,
            entry_address: self.entry_address@,
            entry_aspect: self.entry_aspect@,
        }
    }
}

impl Clone for StoreEntryAspectData {
    fn clone(&self) -> (copy: Self)
        ensures
            copy@ == self@,
    {
        StoreEntryAspectData {
            request_id: self.request_id.clone(),
            space_address: self.space_address.clone(),
            provider_agent_id: self.provider_agent_id.clone(),
            entry_address: self.entry_address.clone(),
            entry_aspect: self.entry_aspect.clone(),
        }
    }
}

} // verus!
