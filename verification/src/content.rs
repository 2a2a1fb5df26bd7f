//! Contents, the units of processing, and the store that owns their bytes.

use crate::shared_buffer::SharedBuffer;
use std::collections::HashMap;
use uuid::Uuid;
use vstd::prelude::*;

verus! {

/// `Uuid::new_v4` followed by `Uuid::as_u128`: a fresh random identifier as
/// a 128-bit number. Nothing is promised of a random value.
#[verifier::external_body]
pub(crate) fn fresh_uuid() -> u128 {
    Uuid::new_v4().as_u128()
}

/// The body of a content: its own buffer, or a range of its parent's.
#[derive(Debug)]
pub enum ContentData {
    Owned(SharedBuffer),
    Borrowed { parent_uuid: u128, offset: usize, length: usize },
}

/// The body of a content in plain values.
pub enum ContentDataView {
    Owned(Seq<u8>),
    Borrowed { parent_uuid: u128, offset: usize, length: usize },
}

impl View for ContentData {
    type V = ContentDataView;

    open spec fn view(&self) -> ContentDataView {
        match *self {
            ContentData::Owned(buffer) => ContentDataView::Owned(buffer@),
            ContentData::Borrowed { parent_uuid, offset, length } => ContentDataView::Borrowed {
                parent_uuid,
                offset,
                length,
            },
        }
    }
}

impl Clone for ContentData {
    fn clone(&self) -> (res: Self)
        ensures
            res@ == self@,
    {
        match self {
            ContentData::Owned(buffer) => ContentData::Owned(buffer.clone()),
            ContentData::Borrowed { parent_uuid, offset, length } => ContentData::Borrowed {
                parent_uuid: *parent_uuid,
                offset: *offset,
                length: *length,
            },
        }
    }
}

/// A unit of processing: an input file, or something a module extracted
/// from another content.
#[derive(Debug)]
pub struct Content {
    pub uuid: u128,
    pub data: ContentData,
    pub filename: String,
    pub parent_uuid: Option<u128>,
    pub depth: usize,
}

/// A content in plain values.
pub struct ContentView {
    pub uuid: u128,
    pub data: ContentDataView,
    pub filename: Seq<char>,
    pub parent_uuid: Option<u128>,
    pub depth: usize,
}

impl View for Content {
    type V = ContentView;

    open spec fn view(&self) -> ContentView {
        ContentView {
            uuid: self.uuid,
            data: self.data@,
            filename: self.filename@,
            parent_uuid: self.parent_uuid,
            depth: self.depth,
        }
    }
}

impl Clone for Content {
    fn clone(&self) -> (res: Self)
        ensures
            res@ == self@,
    {
        Content {
            uuid: self.uuid,
            data: self.data.clone(),
            filename: self.filename.clone(),
            parent_uuid: self.parent_uuid,
            depth: self.depth,
        }
    }
}

/// A sub-content would lie deeper than the configured maximum.
#[derive(Clone, Copy, Debug, PartialEq, Eq, Structural)]
pub struct DepthLimitExceeded {
    pub limit: usize,
}

impl Content {
    /// A root content with the given identifier: depth zero, no parent.
    pub fn root_with_uuid(uuid: u128, buffer: SharedBuffer, filename: String) -> (content: Self)
        ensures
            content@ == (ContentView {
                uuid,
                data: ContentDataView::Owned(buffer@),
                filename: filename@,
                parent_uuid: None,
                depth: 0,
            }),
    {
        Content { uuid, data: ContentData::Owned(buffer), filename, parent_uuid: None, depth: 0 }
    }

    /// A root content with a fresh identifier: depth zero, no parent.
    pub fn new_root(buffer: SharedBuffer, filename: String) -> (content: Self)
        ensures
            content@ == (ContentView {
                uuid: content.uuid,
                data: ContentDataView::Owned(buffer@),
                filename: filename@,
                parent_uuid: None,
                depth: 0,
            }),
    {
        Self::root_with_uuid(fresh_uuid(), buffer, filename)
    }

    /// A child of `parent` with the given identifier, one level deeper.
    /// Refused where the parent already lies at the maximum depth.
    pub fn subcontent_with_uuid(
        uuid: u128,
        parent: &Content,
        data: ContentData,
        filename: String,
        max_depth: usize,
    ) -> (r: Result<Self, DepthLimitExceeded>)
        ensures
            parent.depth >= max_depth ==> r == Err::<Self, DepthLimitExceeded>(
                DepthLimitExceeded { limit: max_depth },
            ),
            parent.depth < max_depth ==> (r matches Ok(content) && content@ == (ContentView {
                uuid,
                data: data@,
                filename: filename@,
                parent_uuid: Some(parent.uuid),
                depth: (parent.depth + 1) as usize,
            })),
    {
        if parent.depth >= max_depth {
            return Err(DepthLimitExceeded { limit: max_depth });
        }
        Ok(
            Content {
                uuid,
                data,
                filename,
                parent_uuid: Some(parent.uuid),
                depth: parent.depth + 1,
            },
        )
    }

    /// A child of `parent` with a fresh identifier, one level deeper.
    /// Refused where the parent already lies at the maximum depth.
    pub fn new_subcontent(
        parent: &Content,
        data: ContentData,
        filename: String,
        max_depth: usize,
    ) -> (r: Result<Self, DepthLimitExceeded>)
        ensures
            parent.depth >= max_depth ==> r == Err::<Self, DepthLimitExceeded>(
                DepthLimitExceeded { limit: max_depth },
            ),
            parent.depth < max_depth ==> (r matches Ok(content) && content@ == (ContentView {
                uuid: content.uuid,
                data: data@,
                filename: filename@,
                parent_uuid: Some(parent.uuid),
                depth: (parent.depth + 1) as usize,
            })),
    {
        if parent.depth >= max_depth {
            return Err(DepthLimitExceeded { limit: max_depth });
        }
        Self::subcontent_with_uuid(fresh_uuid(), parent, data, filename, max_depth)
    }
}

/// The bytes of every content, keyed by identifier.
#[derive(Debug)]
pub struct ContentStore {
    store: HashMap<u128, SharedBuffer>,
}

impl View for ContentStore {
    type V = Map<u128, Seq<u8>>;

    closed spec fn view(&self) -> Map<u128, Seq<u8>> {
        Map::new(|uuid: u128| self.store@.contains_key(uuid), |uuid: u128| self.store@[uuid]@)
    }
}

/// The bytes that a content stands for, given what the store holds: its own
/// buffer, or the range of its parent's buffer. A borrowed body resolves
/// only while the parent is in the store and the range lies inside it.
pub open spec fn resolved(store: Map<u128, Seq<u8>>, data: ContentDataView) -> Option<Seq<u8>> {
    match data {
        ContentDataView::Owned(bytes) => Some(bytes),
        ContentDataView::Borrowed { parent_uuid, offset, length } => if store.contains_key(
            parent_uuid,
        ) && offset + length <= store[parent_uuid].len() {
            Some(store[parent_uuid].subrange(offset as int, offset + length))
        } else {
            None
        },
    }
}

impl ContentStore {
    /// An empty store.
    pub fn new() -> (store: Self)
        ensures
            store@ == Map::<u128, Seq<u8>>::empty(),
    {
        let store = ContentStore { store: HashMap::new() };
        proof {
            assert(store@ =~= Map::<u128, Seq<u8>>::empty());
        }
        store
    }

    /// Records the bytes of a content, replacing what was recorded for it.
    pub fn insert(&mut self, uuid: u128, buffer: SharedBuffer)
        ensures
            final(self)@ == old(self)@.insert(uuid, buffer@),
    {
        self.store.insert(uuid, buffer);
        proof {
            assert(self@ =~= old(self)@.insert(uuid, buffer@));
        }
    }

    /// The bytes recorded for a content.
    pub fn get(&self, uuid: &u128) -> (r: Option<SharedBuffer>)
        ensures
            match r {
                Some(buffer) => self@.contains_key(*uuid) && buffer@ == self@[*uuid],
                None => !self@.contains_key(*uuid),
            },
    {
        match self.store.get(uuid) {
            Some(buffer) => Some(buffer.clone()),
            None => None,
        }
    }

    /// Installs the bytes that a content stands for under the content's own
    /// identifier, so that its sub-contents can borrow from them. Nothing is
    /// installed for a content that does not resolve.
    pub fn install(&mut self, content: &Content) -> (r: Option<SharedBuffer>)
        ensures
            match resolved(old(self)@, content@.data) {
                Some(bytes) => r matches Some(buffer) && buffer@ == bytes && final(self)@ == old(
                    self,
                )@.insert(content.uuid, bytes),
                None => r is None && final(self)@ == old(self)@,
            },
    {
        match self.resolve(content) {
            Some(buffer) => {
                self.insert(content.uuid, buffer.clone());
                Some(buffer)
            },
            None => None,
        }
    }

    /// The buffer that a content stands for. Owned content yields its own
    /// buffer; borrowed content yields the range of its parent's buffer,
    /// sharing its storage.
    pub fn resolve(&self, content: &Content) -> (r: Option<SharedBuffer>)
        ensures
            match resolved(self@, content@.data) {
                Some(bytes) => r matches Some(buffer) && buffer@ == bytes,
                None => r is None,
            },
    {
        match &content.data {
            ContentData::Owned(buffer) => Some(buffer.clone()),
            ContentData::Borrowed { parent_uuid, offset, length } => {
                let parent = match self.get(parent_uuid) {
                    Some(parent) => parent,
                    None => {
                        return None;
                    },
                };
                if *length > parent.len() || *offset > parent.len() - *length {
                    return None;
                }
                Some(parent.slice(*offset..*offset + *length))
            },
        }
    }
}

} // verus!
