//! The scratch state of one call into a module: the content being
//! processed and everything the module has published so far.

use crate::emission::{metadata_in, parse_metadata, MetadataDocument};
use crate::shared_buffer::{bytes_contents, SharedBuffer};
use crate::types::{rows_view, schemas_view, MetadataRow, RowView, TableSchema, TableSchemaView};
use crate::wasi::{CloseResult, SubcontentEmission, SubcontentEmissionData};
use crate::wasi_model::{CloseView, EmissionDataView, EmissionView};
use bytes::Bytes;
use vstd::prelude::*;

verus! {

/// The payload of a pending sub-content emission.
#[derive(Debug)]
pub enum SubContentData {
    /// Bytes handed over by the guest.
    Bytes(Bytes),
    /// A range of the content being processed.
    Slice { offset: usize, length: usize },
}

impl View for SubContentData {
    type V = EmissionDataView;

    open spec fn view(&self) -> EmissionDataView {
        match *self {
            SubContentData::Bytes(bytes) => EmissionDataView::Bytes(bytes_contents(bytes)),
            SubContentData::Slice { offset, length } => EmissionDataView::Slice { offset, length },
        }
    }
}

/// A pending sub-content emission.
#[derive(Debug)]
pub struct SubContentEmission {
    pub data: SubContentData,
    pub filename: String,
}

impl View for SubContentEmission {
    type V = EmissionView;

    open spec fn view(&self) -> EmissionView {
        EmissionView { filename: self.filename@, data: self.data@ }
    }
}

impl SubContentEmission {
    /// The pending emission for what a close published.
    pub fn from_published(emission: SubcontentEmission) -> (pending: Self)
        ensures
            pending@ == emission@,
    {
        let SubcontentEmission { filename, data } = emission;
        let data = match data {
            SubcontentEmissionData::Bytes(bytes) => SubContentData::Bytes(bytes),
            SubcontentEmissionData::Slice { offset, length } => SubContentData::Slice {
                offset,
                length,
            },
        };
        SubContentEmission { data, filename }
    }
}

/// The plain values of a sequence of emissions.
pub open spec fn emissions_view(emissions: Seq<SubContentEmission>) -> Seq<EmissionView> {
    Seq::new(emissions.len(), |i: int| emissions[i]@)
}

/// The scratch state of one call.
#[derive(Debug)]
pub struct ProcessingContext {
    pub content_uuid: u128,
    pub content_data: SharedBuffer,
    pub subcontent: Vec<SubContentEmission>,
    pub metadata: Vec<MetadataRow>,
    pub table_schemas: Vec<TableSchema>,
    pub stdout: Vec<u8>,
    pub stderr: Vec<u8>,
    pub stdout_truncated: bool,
    pub stderr_truncated: bool,
}

/// The scratch state of one call in plain values.
pub struct ContextView {
    pub content_uuid: u128,
    pub content_data: Seq<u8>,
    pub subcontent: Seq<EmissionView>,
    pub metadata: Seq<RowView>,
    pub table_schemas: Seq<TableSchemaView>,
    pub stdout: Seq<u8>,
    pub stderr: Seq<u8>,
    pub stdout_truncated: bool,
    pub stderr_truncated: bool,
}

impl View for ProcessingContext {
    type V = ContextView;

    open spec fn view(&self) -> ContextView {
        ContextView {
            content_uuid: self.content_uuid,
            content_data: self.content_data@,
            subcontent: emissions_view(self.subcontent@),
            metadata: rows_view(self.metadata@),
            table_schemas: schemas_view(self.table_schemas@),
            stdout: self.stdout@,
            stderr: self.stderr@,
            stdout_truncated: self.stdout_truncated,
            stderr_truncated: self.stderr_truncated,
        }
    }
}

impl ContextView {
    /// A context for the given content with nothing published.
    pub open spec fn fresh(content_uuid: u128, content_data: Seq<u8>) -> ContextView {
        ContextView {
            content_uuid,
            content_data,
            subcontent: Seq::empty(),
            metadata: Seq::empty(),
            table_schemas: Seq::empty(),
            stdout: Seq::empty(),
            stderr: Seq::empty(),
            stdout_truncated: false,
            stderr_truncated: false,
        }
    }

    /// The context with nothing pending.
    pub open spec fn cleared(self) -> ContextView {
        ContextView {
            subcontent: Seq::empty(),
            metadata: Seq::empty(),
            table_schemas: Seq::empty(),
            ..self
        }
    }

    /// The context after the contents of a metadata file were taken in: its
    /// schemas and rows are appended to what is pending. A file that does
    /// not parse adds nothing.
    pub open spec fn with_metadata(self, bytes: Seq<u8>) -> ContextView {
        match metadata_in(bytes) {
            Some(document) => ContextView {
                table_schemas: self.table_schemas + document.tables,
                metadata: self.metadata + document.rows,
                ..self
            },
            None => self,
        }
    }

    /// The context after the first `n` of some metadata files were taken in,
    /// in order.
    pub open spec fn with_all_metadata(self, files: Seq<Seq<u8>>, n: int) -> ContextView
        decreases n,
    {
        if n <= 0 {
            self
        } else {
            self.with_all_metadata(files, n - 1).with_metadata(files[n - 1])
        }
    }

    /// The context after a sub-content emission was taken in.
    pub open spec fn with_emission(self, emission: EmissionView) -> ContextView {
        ContextView { subcontent: self.subcontent.push(emission), ..self }
    }

    /// The context after everything a close published was taken in.
    pub open spec fn absorbed(self, close: CloseView) -> ContextView {
        let with_rows = match close.metadata_content {
            Some(bytes) => self.with_metadata(bytes),
            None => self,
        };
        match close.subcontent_emission {
            Some(emission) => with_rows.with_emission(emission),
            None => with_rows,
        }
    }
}

impl ProcessingContext {
    /// A context for the given content with nothing published.
    pub fn new(content_uuid: u128, content_data: SharedBuffer) -> (ctx: Self)
        ensures
            ctx@ == ContextView::fresh(content_uuid, content_data@),
    {
        let ctx = ProcessingContext {
            content_uuid,
            content_data,
            subcontent: Vec::new(),
            metadata: Vec::new(),
            table_schemas: Vec::new(),
            stdout: Vec::new(),
            stderr: Vec::new(),
            stdout_truncated: false,
            stderr_truncated: false,
        };
        proof {
            assert(ctx@.subcontent =~= Seq::empty());
            assert(ctx@.metadata =~= Seq::empty());
            assert(ctx@.table_schemas =~= Seq::empty());
        }
        ctx
    }

    /// Drops everything pending.
    pub fn clear(&mut self)
        ensures
            final(self)@ == old(self)@.cleared(),
    {
        self.subcontent.clear();
        self.metadata.clear();
        self.table_schemas.clear();
        proof {
            assert(self@.subcontent =~= Seq::empty());
            assert(self@.metadata =~= Seq::empty());
            assert(self@.table_schemas =~= Seq::empty());
        }
    }

    /// Takes in the contents of a metadata file. Returns whether they
    /// parsed.
    pub fn absorb_metadata(&mut self, bytes: &[u8]) -> (parsed: bool)
        ensures
            final(self)@ == old(self)@.with_metadata(bytes@),
            parsed == (metadata_in(bytes@) is Some),
    {
        match parse_metadata(bytes) {
            Some(document) => {
                let MetadataDocument { tables, rows } = document;
                let mut tables = tables;
                let mut rows = rows;
                let ghost added_tables = schemas_view(tables@);
                let ghost added_rows = rows_view(rows@);
                self.table_schemas.append(&mut tables);
                self.metadata.append(&mut rows);
                proof {
                    assert(self@.table_schemas =~= old(self)@.table_schemas + added_tables);
                    assert(self@.metadata =~= old(self)@.metadata + added_rows);
                }
                true
            },
            None => false,
        }
    }

    /// Takes in a sub-content emission.
    pub fn absorb_emission(&mut self, emission: SubcontentEmission)
        ensures
            final(self)@ == old(self)@.with_emission(emission@),
    {
        self.subcontent.push(SubContentEmission::from_published(emission));
        proof {
            assert(self@.subcontent =~= old(self)@.subcontent.push(emission@));
        }
    }

    /// Takes in everything a close published.
    pub fn absorb(&mut self, close: CloseResult)
        ensures
            final(self)@ == old(self)@.absorbed(close@),
    {
        let CloseResult { metadata_content, subcontent_emission } = close;
        match metadata_content {
            Some(bytes) => {
                let _ = self.absorb_metadata(bytes.as_slice());
            },
            None => {},
        }
        match subcontent_emission {
            Some(emission) => {
                self.absorb_emission(emission);
            },
            None => {},
        }
    }
}

} // verus!
