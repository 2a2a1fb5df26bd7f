//! What the scheduler does with the results of processing one content: the
//! operations it sends to the metadata sink, and the sub-contents it makes
//! from what the modules emitted.

use crate::content::{
    fresh_uuid, resolved, Content, ContentData, ContentDataView, ContentStore, ContentView,
};
use crate::context::{emissions_view, ContextView, SubContentData, SubContentEmission};
use crate::host::ModuleReport;
use crate::module::{error_text, ErrorView};
use crate::shared_buffer::SharedBuffer;
use crate::types::{
    clone_values, rows_view, schemas_view, CellValue, CellView, MetadataRow, RowView, TableSchema,
    TableSchemaView,
};
use crate::wasi_model::{EmissionDataView, EmissionView};
use vstd::prelude::*;
use vstd::string::StringExecFns;

verus! {

/// The report of one module on one content.
#[derive(Debug)]
pub struct ModuleResult {
    pub name: String,
    pub report: ModuleReport,
}

/// A module's report in plain values.
pub struct ResultView {
    pub name: Seq<char>,
    pub error: Option<ErrorView>,
    pub context: ContextView,
}

impl View for ModuleResult {
    type V = ResultView;

    open spec fn view(&self) -> ResultView {
        ResultView {
            name: self.name@,
            error: match self.report.error {
                Some(error) => Some(error@),
                None => None,
            },
            context: self.report.context@,
        }
    }
}

/// The plain values of a sequence of module reports.
pub open spec fn results_view(results: Seq<ModuleResult>) -> Seq<ResultView> {
    Seq::new(results.len(), |i: int| results[i]@)
}

/// One operation on the metadata sink.
#[derive(Debug)]
pub enum SinkAction {
    StartContent { uuid: u128, filename: String, parent_uuid: Option<u128> },
    SetCurrentModule { uuid: u128, module_name: String },
    DefineTable { schema: TableSchema },
    InsertRow { table: String, uuid: u128, values: Vec<CellValue> },
    RecordModuleOutput {
        uuid: u128,
        module_name: String,
        stdout: Option<Vec<u8>>,
        stderr: Option<Vec<u8>>,
        stdout_truncated: bool,
        stderr_truncated: bool,
    },
    FinalizeSuccess { uuid: u128 },
    FinalizeFailure { uuid: u128, error_message: String },
}

/// A sink operation in plain values.
pub enum ActionView {
    StartContent { uuid: u128, filename: Seq<char>, parent_uuid: Option<u128> },
    SetCurrentModule { uuid: u128, module_name: Seq<char> },
    DefineTable { schema: TableSchemaView },
    InsertRow { table: Seq<char>, uuid: u128, values: Seq<CellView> },
    RecordModuleOutput {
        uuid: u128,
        module_name: Seq<char>,
        stdout: Option<Seq<u8>>,
        stderr: Option<Seq<u8>>,
        stdout_truncated: bool,
        stderr_truncated: bool,
    },
    FinalizeSuccess { uuid: u128 },
    FinalizeFailure { uuid: u128, error_message: Seq<char> },
}

/// The bytes of an optional buffer.
pub open spec fn optional_bytes(buffer: Option<Vec<u8>>) -> Option<Seq<u8>> {
    match buffer {
        Some(bytes) => Some(bytes@),
        None => None,
    }
}

impl View for SinkAction {
    type V = ActionView;

    open spec fn view(&self) -> ActionView {
        match *self {
            SinkAction::StartContent { uuid, filename, parent_uuid } => ActionView::StartContent {
                uuid,
                filename: filename@,
                parent_uuid,
            },
            SinkAction::SetCurrentModule { uuid, module_name } => ActionView::SetCurrentModule {
                uuid,
                module_name: module_name@,
            },
            SinkAction::DefineTable { schema } => ActionView::DefineTable { schema: schema@ },
            SinkAction::InsertRow { table, uuid, values } => ActionView::InsertRow {
                table: table@,
                uuid,
                values: crate::types::values_view(values@),
            },
            SinkAction::RecordModuleOutput {
                uuid,
                module_name,
                stdout,
                stderr,
                stdout_truncated,
                stderr_truncated,
            } => ActionView::RecordModuleOutput {
                uuid,
                module_name: module_name@,
                stdout: optional_bytes(stdout),
                stderr: optional_bytes(stderr),
                stdout_truncated,
                stderr_truncated,
            },
            SinkAction::FinalizeSuccess { uuid } => ActionView::FinalizeSuccess { uuid },
            SinkAction::FinalizeFailure { uuid, error_message } => ActionView::FinalizeFailure {
                uuid,
                error_message: error_message@,
            },
        }
    }
}

/// The plain values of a sequence of sink operations.
pub open spec fn actions_view(actions: Seq<SinkAction>) -> Seq<ActionView> {
    Seq::new(actions.len(), |i: int| actions[i]@)
}

impl ActionView {
    /// The operation records a content's final status.
    pub open spec fn is_final(self) -> bool {
        self is FinalizeSuccess || self is FinalizeFailure
    }
}

/// One declaration for each schema, in order.
pub open spec fn define_actions(schemas: Seq<TableSchemaView>) -> Seq<ActionView> {
    Seq::new(schemas.len(), |i: int| ActionView::DefineTable { schema: schemas[i] })
}

/// One insertion for each row, in order.
pub open spec fn insert_actions(uuid: u128, rows: Seq<RowView>) -> Seq<ActionView> {
    Seq::new(
        rows.len(),
        |i: int|
            ActionView::InsertRow { table: rows[i].table_name, uuid, values: rows[i].values },
    )
}

/// The module wrote to standard output or standard error.
pub open spec fn wrote_output(ctx: ContextView) -> bool {
    ctx.stdout.len() > 0 || ctx.stderr.len() > 0
}

/// A captured stream as the sink records it: absent where nothing was
/// written.
pub open spec fn recorded_stream(bytes: Seq<u8>) -> Option<Seq<u8>> {
    if bytes.len() > 0 {
        Some(bytes)
    } else {
        None
    }
}

/// The record of a module's output.
pub open spec fn output_action(uuid: u128, name: Seq<char>, ctx: ContextView) -> ActionView {
    ActionView::RecordModuleOutput {
        uuid,
        module_name: name,
        stdout: recorded_stream(ctx.stdout),
        stderr: recorded_stream(ctx.stderr),
        stdout_truncated: ctx.stdout_truncated,
        stderr_truncated: ctx.stderr_truncated,
    }
}

/// What one module's report sends to the sink: the module becomes current,
/// its tables are declared, its rows inserted, and its output recorded
/// where it wrote any.
pub open spec fn module_actions(uuid: u128, result: ResultView) -> Seq<ActionView> {
    seq![ActionView::SetCurrentModule { uuid, module_name: result.name }] + define_actions(
        result.context.table_schemas,
    ) + insert_actions(uuid, result.context.metadata) + (if wrote_output(result.context) {
        seq![output_action(uuid, result.name, result.context)]
    } else {
        Seq::empty()
    })
}

/// What the first `n` reports send to the sink, in module order.
pub open spec fn reports_actions(uuid: u128, results: Seq<ResultView>, n: int) -> Seq<ActionView>
    decreases n,
{
    if n <= 0 {
        Seq::empty()
    } else {
        reports_actions(uuid, results, n - 1) + module_actions(uuid, results[n - 1])
    }
}

/// How many of the first `n` modules failed.
pub open spec fn failures(results: Seq<ResultView>, n: int) -> nat
    decreases n,
{
    if n <= 0 {
        0
    } else {
        failures(results, n - 1) + if results[n - 1].error is Some {
            1nat
        } else {
            0nat
        }
    }
}

/// The line that reports one module's failure.
pub open spec fn failure_line(name: Seq<char>, error: ErrorView) -> Seq<char> {
    "Module '"@ + name + "' failed: "@ + error_text(error)
}

/// The failures of the first `n` modules, one line each, joined by `; `.
pub open spec fn failure_summary(results: Seq<ResultView>, n: int) -> Seq<char>
    decreases n,
{
    if n <= 0 {
        Seq::empty()
    } else {
        let before = failure_summary(results, n - 1);
        match results[n - 1].error {
            None => before,
            Some(error) => if failures(results, n - 1) == 0 {
                failure_line(results[n - 1].name, error)
            } else {
                before + "; "@ + failure_line(results[n - 1].name, error)
            },
        }
    }
}

/// The final status of a content: success where no module failed,
/// otherwise failure with the summary of the failures.
pub open spec fn final_action(uuid: u128, results: Seq<ResultView>) -> ActionView {
    if failures(results, results.len() as int) == 0 {
        ActionView::FinalizeSuccess { uuid }
    } else {
        ActionView::FinalizeFailure {
            uuid,
            error_message: failure_summary(results, results.len() as int),
        }
    }
}

/// Everything the sink is sent for one content: the content is started,
/// each module's report follows in module order, and the content's final
/// status comes last.
pub open spec fn sink_plan(content: ContentView, results: Seq<ResultView>) -> Seq<ActionView> {
    seq![
        ActionView::StartContent {
            uuid: content.uuid,
            filename: content.filename,
            parent_uuid: content.parent_uuid,
        },
    ] + reports_actions(content.uuid, results, results.len() as int) + seq![
        final_action(content.uuid, results),
    ]
}

/// How many operations of a sequence record a final status.
pub open spec fn final_count(actions: Seq<ActionView>) -> nat
    decreases actions.len(),
{
    if actions.len() == 0 {
        0
    } else {
        final_count(actions.drop_last()) + if actions.last().is_final() {
            1nat
        } else {
            0nat
        }
    }
}

proof fn lemma_final_count_concat(a: Seq<ActionView>, b: Seq<ActionView>)
    ensures
        final_count(a + b) == final_count(a) + final_count(b),
    decreases b.len(),
{
    if b.len() == 0 {
        assert(a + b =~= a);
    } else {
        assert((a + b).drop_last() =~= a + b.drop_last());
        assert((a + b).last() == b.last());
        lemma_final_count_concat(a, b.drop_last());
    }
}

proof fn lemma_no_final(actions: Seq<ActionView>)
    requires
        forall|i: int| 0 <= i < actions.len() ==> !(#[trigger] actions[i]).is_final(),
    ensures
        final_count(actions) == 0,
    decreases actions.len(),
{
    if actions.len() > 0 {
        lemma_no_final(actions.drop_last());
    }
}

proof fn lemma_reports_have_no_final(uuid: u128, results: Seq<ResultView>, n: int)
    ensures
        final_count(reports_actions(uuid, results, n)) == 0,
    decreases n,
{
    if n > 0 {
        lemma_reports_have_no_final(uuid, results, n - 1);
        lemma_no_final(module_actions(uuid, results[n - 1]));
        lemma_final_count_concat(
            reports_actions(uuid, results, n - 1),
            module_actions(uuid, results[n - 1]),
        );
    }
}

/// Every content gets exactly one final status, and it is the last thing
/// the sink is sent for it.
pub proof fn lemma_one_final_status(content: ContentView, results: Seq<ResultView>)
    ensures
        final_count(sink_plan(content, results)) == 1,
        sink_plan(content, results).last() == final_action(content.uuid, results),
        sink_plan(content, results).last().is_final(),
        sink_plan(content, results).last() is FinalizeSuccess <==> forall|i: int|
            0 <= i < results.len() ==> (#[trigger] results[i]).error is None,
{
    let start = seq![
        ActionView::StartContent {
            uuid: content.uuid,
            filename: content.filename,
            parent_uuid: content.parent_uuid,
        },
    ];
    let middle = reports_actions(content.uuid, results, results.len() as int);
    let end = seq![final_action(content.uuid, results)];
    lemma_no_final(start);
    lemma_reports_have_no_final(content.uuid, results, results.len() as int);
    lemma_final_count_concat(start, middle);
    lemma_final_count_concat(start + middle, end);
    assert(end.drop_last() =~= Seq::<ActionView>::empty());
    assert(final_count(end.drop_last()) == 0);
    lemma_failures_zero(results, results.len() as int);
}

proof fn lemma_failures_zero(results: Seq<ResultView>, n: int)
    requires
        0 <= n <= results.len(),
    ensures
        failures(results, n) == 0 <==> forall|i: int|
            0 <= i < n ==> (#[trigger] results[i]).error is None,
    decreases n,
{
    if n > 0 {
        lemma_failures_zero(results, n - 1);
    }
}

/// The output of every module that wrote any is recorded, with the
/// truncation flags the capture ended with.
pub proof fn lemma_output_is_recorded(content: ContentView, results: Seq<ResultView>, i: int)
    requires
        0 <= i < results.len(),
        wrote_output(results[i].context),
    ensures
        sink_plan(content, results).contains(
            output_action(content.uuid, results[i].name, results[i].context),
        ),
{
    lemma_reports_contain(content.uuid, results, results.len() as int, i);
    let wanted = output_action(content.uuid, results[i].name, results[i].context);
    let middle = reports_actions(content.uuid, results, results.len() as int);
    let k = choose|k: int| 0 <= k < middle.len() && middle[k] == wanted;
    let plan = sink_plan(content, results);
    assert(plan[k + 1] == wanted);
}

proof fn lemma_reports_contain(uuid: u128, results: Seq<ResultView>, n: int, i: int)
    requires
        0 <= i < n <= results.len(),
        wrote_output(results[i].context),
    ensures
        reports_actions(uuid, results, n).contains(
            output_action(uuid, results[i].name, results[i].context),
        ),
    decreases n,
{
    let wanted = output_action(uuid, results[i].name, results[i].context);
    let before = reports_actions(uuid, results, n - 1);
    let last = module_actions(uuid, results[n - 1]);
    if i == n - 1 {
        assert(last.last() == wanted);
        assert((before + last)[before.len() + last.len() - 1] == wanted);
    } else {
        lemma_reports_contain(uuid, results, n - 1, i);
        let k = choose|k: int| 0 <= k < before.len() && before[k] == wanted;
        assert((before + last)[k] == wanted);
    }
}


fn push_action(actions: &mut Vec<SinkAction>, action: SinkAction)
    ensures
        actions_view(final(actions)@) == actions_view(old(actions)@).push(action@),
{
    actions.push(action);
    proof {
        assert(actions_view(actions@) =~= actions_view(old(actions)@).push(action@));
    }
}

fn push_defines(actions: &mut Vec<SinkAction>, schemas: &Vec<TableSchema>)
    ensures
        actions_view(final(actions)@) == actions_view(old(actions)@) + define_actions(
            schemas_view(schemas@),
        ),
{
    let ghost wanted = define_actions(schemas_view(schemas@));
    let mut i: usize = 0;
    proof {
        assert(actions_view(actions@) =~= actions_view(old(actions)@) + wanted.take(0));
    }
    while i < schemas.len()
        invariant
            i <= schemas@.len(),
            wanted == define_actions(schemas_view(schemas@)),
            actions_view(actions@) == actions_view(old(actions)@) + wanted.take(i as int),
        decreases schemas@.len() - i,
    {
        push_action(actions, SinkAction::DefineTable { schema: schemas[i].clone() });
        proof {
            assert(wanted.take(i as int + 1) =~= wanted.take(i as int).push(wanted[i as int]));
            assert(actions_view(actions@) =~= actions_view(old(actions)@) + wanted.take(
                i as int + 1,
            ));
        }
        i += 1;
    }
    proof {
        assert(wanted.take(schemas@.len() as int) =~= wanted);
    }
}

fn push_inserts(actions: &mut Vec<SinkAction>, uuid: u128, rows: &Vec<MetadataRow>)
    ensures
        actions_view(final(actions)@) == actions_view(old(actions)@) + insert_actions(
            uuid,
            rows_view(rows@),
        ),
{
    let ghost wanted = insert_actions(uuid, rows_view(rows@));
    let mut i: usize = 0;
    proof {
        assert(actions_view(actions@) =~= actions_view(old(actions)@) + wanted.take(0));
    }
    while i < rows.len()
        invariant
            i <= rows@.len(),
            wanted == insert_actions(uuid, rows_view(rows@)),
            actions_view(actions@) == actions_view(old(actions)@) + wanted.take(i as int),
        decreases rows@.len() - i,
    {
        push_action(
            actions,
            SinkAction::InsertRow {
                table: rows[i].table_name.clone(),
                uuid,
                values: clone_values(&rows[i].values),
            },
        );
        proof {
            assert(wanted.take(i as int + 1) =~= wanted.take(i as int).push(wanted[i as int]));
            assert(actions_view(actions@) =~= actions_view(old(actions)@) + wanted.take(
                i as int + 1,
            ));
        }
        i += 1;
    }
    proof {
        assert(wanted.take(rows@.len() as int) =~= wanted);
    }
}

fn stream_to_record(bytes: &Vec<u8>) -> (r: Option<Vec<u8>>)
    ensures
        optional_bytes(r) == recorded_stream(bytes@),
{
    if bytes.len() > 0 {
        Some(bytes.clone())
    } else {
        None
    }
}

/// Appends what one module's report sends to the sink.
fn push_module_actions(actions: &mut Vec<SinkAction>, uuid: u128, result: &ModuleResult)
    ensures
        actions_view(final(actions)@) == actions_view(old(actions)@) + module_actions(
            uuid,
            result@,
        ),
{
    let ctx = &result.report.context;
    push_action(actions, SinkAction::SetCurrentModule { uuid, module_name: result.name.clone() });
    push_defines(actions, &ctx.table_schemas);
    push_inserts(actions, uuid, &ctx.metadata);
    if ctx.stdout.len() > 0 || ctx.stderr.len() > 0 {
        push_action(
            actions,
            SinkAction::RecordModuleOutput {
                uuid,
                module_name: result.name.clone(),
                stdout: stream_to_record(&ctx.stdout),
                stderr: stream_to_record(&ctx.stderr),
                stdout_truncated: ctx.stdout_truncated,
                stderr_truncated: ctx.stderr_truncated,
            },
        );
    }
    proof {
        assert(actions_view(actions@) =~= actions_view(old(actions)@) + module_actions(
            uuid,
            result@,
        ));
    }
}

/// Plans what the sink is sent for one content, given the report of every
/// module in module order.
pub fn plan_sink_actions(content: &Content, results: &Vec<ModuleResult>) -> (actions: Vec<
    SinkAction,
>)
    ensures
        actions_view(actions@) == sink_plan(content@, results_view(results@)),
{
    let uuid = content.uuid;
    let ghost reports = results_view(results@);
    let mut actions: Vec<SinkAction> = Vec::new();
    push_action(
        &mut actions,
        SinkAction::StartContent {
            uuid,
            filename: content.filename.clone(),
            parent_uuid: content.parent_uuid,
        },
    );
    let ghost start = actions_view(actions@);
    let mut summary = String::new();
    let mut failed: usize = 0;
    let mut i: usize = 0;
    proof {
        assert(start =~= seq![
            ActionView::StartContent {
                uuid: content@.uuid,
                filename: content@.filename,
                parent_uuid: content@.parent_uuid,
            },
        ]);
        assert(actions_view(actions@) =~= start + reports_actions(uuid, reports, 0));
    }
    while i < results.len()
        invariant
            i <= results@.len(),
            reports == results_view(results@),
            actions_view(actions@) == start + reports_actions(uuid, reports, i as int),
            summary@ == failure_summary(reports, i as int),
            failed == failures(reports, i as int),
            failed <= i,
        decreases results@.len() - i,
    {
        proof {
            assert(reports[i as int] == results@[i as int]@);
        }
        push_module_actions(&mut actions, uuid, &results[i]);
        match &results[i].report.error {
            Some(error) => {
                let text = error.message();
                if failed > 0 {
                    summary.append("; ");
                } else {
                    summary = String::new();
                }
                summary.append("Module '");
                summary.append(results[i].name.as_str());
                summary.append("' failed: ");
                summary.append(text.as_str());
                failed += 1;
                proof {
                    assert(summary@ =~= failure_summary(reports, i as int + 1));
                }
            },
            None => {},
        }
        proof {
            assert(actions_view(actions@) =~= start + reports_actions(uuid, reports, i as int + 1));
        }
        i += 1;
    }
    if failed == 0 {
        push_action(&mut actions, SinkAction::FinalizeSuccess { uuid });
    } else {
        push_action(&mut actions, SinkAction::FinalizeFailure { uuid, error_message: summary });
    }
    proof {
        assert(actions_view(actions@) =~= sink_plan(content@, reports));
    }
    actions
}


/// Why an emission did not become a content.
#[derive(Clone, Copy, Debug, PartialEq, Eq, Structural)]
pub enum SpawnError {
    /// The sub-content would lie deeper than the maximum depth.
    DepthLimitExceeded { limit: usize },
    /// The parent's bytes are not in the content store.
    ParentMissing,
    /// The range does not lie inside the parent's bytes.
    SliceOutOfBounds { offset: usize, length: usize, parent_length: usize },
}

/// An emission that did not become a content.
#[derive(Debug)]
pub struct Rejection {
    pub filename: String,
    pub error: SpawnError,
}

/// A rejection in plain values.
pub struct RejectionView {
    pub filename: Seq<char>,
    pub error: SpawnError,
}

impl View for Rejection {
    type V = RejectionView;

    open spec fn view(&self) -> RejectionView {
        RejectionView { filename: self.filename@, error: self.error }
    }
}

/// The contents made from a content's emissions, and the emissions that
/// were refused.
#[derive(Debug)]
pub struct Spawned {
    pub accepted: Vec<Content>,
    pub rejected: Vec<Rejection>,
}

/// The plain values of a sequence of contents.
pub open spec fn contents_view(contents: Seq<Content>) -> Seq<ContentView> {
    Seq::new(contents.len(), |i: int| contents[i]@)
}

/// The plain values of a sequence of rejections.
pub open spec fn rejections_view(rejections: Seq<Rejection>) -> Seq<RejectionView> {
    Seq::new(rejections.len(), |i: int| rejections[i]@)
}

/// The outcome of spawning, in plain values, with the store it leaves.
pub struct SpawnedView {
    pub accepted: Seq<ContentView>,
    pub rejected: Seq<RejectionView>,
    pub store: Map<u128, Seq<u8>>,
}

/// The content that an emission becomes under the identifier `uuid`, with
/// the bytes it stands for, or the reason for which it is refused. Nothing
/// is accepted from a parent at the maximum depth. Bytes become an owned
/// body. A slice becomes a body borrowed from the parent, provided that
/// the parent's bytes are in the store and the range lies inside them.
pub open spec fn spawn_one(
    parent: ContentView,
    store: Map<u128, Seq<u8>>,
    emission: EmissionView,
    uuid: u128,
    max_depth: usize,
) -> Result<(ContentView, Seq<u8>), SpawnError> {
    if parent.depth >= max_depth {
        Err(SpawnError::DepthLimitExceeded { limit: max_depth })
    } else {
        match emission.data {
            EmissionDataView::Bytes(bytes) => Ok(
                (
                    ContentView {
                        uuid,
                        data: ContentDataView::Owned(bytes),
                        filename: emission.filename,
                        parent_uuid: Some(parent.uuid),
                        depth: (parent.depth + 1) as usize,
                    },
                    bytes,
                ),
            ),
            EmissionDataView::Slice { offset, length } => if !store.contains_key(parent.uuid) {
                Err(SpawnError::ParentMissing)
            } else if offset + length > store[parent.uuid].len() {
                Err(
                    SpawnError::SliceOutOfBounds {
                        offset,
                        length,
                        parent_length: store[parent.uuid].len() as usize,
                    },
                )
            } else {
                Ok(
                    (
                        ContentView {
                            uuid,
                            data: ContentDataView::Borrowed {
                                parent_uuid: parent.uuid,
                                offset,
                                length,
                            },
                            filename: emission.filename,
                            parent_uuid: Some(parent.uuid),
                            depth: (parent.depth + 1) as usize,
                        },
                        store[parent.uuid].subrange(offset as int, offset + length),
                    ),
                )
            },
        }
    }
}

/// The outcome of spawning the first `n` emissions in order, emission `i`
/// under the identifier `uuids[i]`. The bytes of every accepted content
/// are installed in the store under its identifier.
pub open spec fn spawn_all(
    parent: ContentView,
    store: Map<u128, Seq<u8>>,
    emissions: Seq<EmissionView>,
    uuids: Seq<u128>,
    n: int,
    max_depth: usize,
) -> SpawnedView
    decreases n,
{
    if n <= 0 {
        SpawnedView { accepted: Seq::empty(), rejected: Seq::empty(), store }
    } else {
        let before = spawn_all(parent, store, emissions, uuids, n - 1, max_depth);
        match spawn_one(parent, before.store, emissions[n - 1], uuids[n - 1], max_depth) {
            Ok((content, bytes)) => SpawnedView {
                accepted: before.accepted.push(content),
                rejected: before.rejected,
                store: before.store.insert(content.uuid, bytes),
            },
            Err(error) => SpawnedView {
                accepted: before.accepted,
                rejected: before.rejected.push(
                    RejectionView { filename: emissions[n - 1].filename, error },
                ),
                store: before.store,
            },
        }
    }
}

/// Turns one emission into a content under the given identifier.
pub fn spawn_with_uuid(
    parent: &Content,
    store: &ContentStore,
    emission: SubContentEmission,
    uuid: u128,
    max_depth: usize,
) -> (r: Result<(Content, SharedBuffer), Rejection>)
    ensures
        match spawn_one(parent@, store@, emission@, uuid, max_depth) {
            Ok((content, bytes)) => r matches Ok((c, b)) && c@ == content && b@ == bytes,
            Err(error) => r matches Err(rejection) && rejection@ == (RejectionView {
                filename: emission@.filename,
                error,
            }),
        },
{
    let SubContentEmission { data, filename } = emission;
    if parent.depth >= max_depth {
        return Err(
            Rejection { filename, error: SpawnError::DepthLimitExceeded { limit: max_depth } },
        );
    }
    let (body, buffer) = match data {
        SubContentData::Bytes(bytes) => {
            let buffer = SharedBuffer::from_bytes(bytes);
            (ContentData::Owned(buffer.clone()), buffer)
        },
        SubContentData::Slice { offset, length } => {
            let parent_buffer = match store.get(&parent.uuid) {
                Some(buffer) => buffer,
                None => {
                    return Err(Rejection { filename, error: SpawnError::ParentMissing });
                },
            };
            let parent_length: usize = parent_buffer.len();
            if length > parent_length || offset > parent_length - length {
                return Err(
                    Rejection {
                        filename,
                        error: SpawnError::SliceOutOfBounds { offset, length, parent_length },
                    },
                );
            }
            (
                ContentData::Borrowed { parent_uuid: parent.uuid, offset, length },
                parent_buffer.slice(offset..offset + length),
            )
        },
    };
    Ok(
        (
            Content {
                uuid,
                data: body,
                filename,
                parent_uuid: Some(parent.uuid),
                depth: parent.depth + 1,
            },
            buffer,
        ),
    )
}

/// Turns a content's emissions into contents, emission `i` under the
/// identifier `uuids[i]`, and installs the bytes of each in the store.
pub fn spawn_with_uuids(
    parent: &Content,
    emissions: Vec<SubContentEmission>,
    uuids: &Vec<u128>,
    max_depth: usize,
    store: &mut ContentStore,
) -> (spawned: Spawned)
    requires
        uuids@.len() == emissions@.len(),
    ensures
        (SpawnedView {
            accepted: contents_view(spawned.accepted@),
            rejected: rejections_view(spawned.rejected@),
            store: final(store)@,
        }) == spawn_all(
            parent@,
            old(store)@,
            emissions_view(emissions@),
            uuids@,
            emissions@.len() as int,
            max_depth,
        ),
{
    let ghost all = emissions_view(emissions@);
    let mut accepted: Vec<Content> = Vec::new();
    let mut rejected: Vec<Rejection> = Vec::new();
    let count: usize = uuids.len();
    let mut i: usize = 0;
    proof {
        assert(contents_view(accepted@) =~= Seq::<ContentView>::empty());
        assert(rejections_view(rejected@) =~= Seq::<RejectionView>::empty());
    }
    for emission in it: emissions
        invariant
            it.seq() == emissions@,
            all == emissions_view(emissions@),
            uuids@.len() == emissions@.len(),
            i == it.index(),
            count == uuids@.len(),
            (SpawnedView {
                accepted: contents_view(accepted@),
                rejected: rejections_view(rejected@),
                store: store@,
            }) == spawn_all(parent@, old(store)@, all, uuids@, i as int, max_depth),
    {
        let ghost before_accepted = contents_view(accepted@);
        let ghost before_rejected = rejections_view(rejected@);
        proof {
            assert(emission@ == all[i as int]);
        }
        match spawn_with_uuid(parent, store, emission, uuids[i], max_depth) {
            Ok((content, buffer)) => {
                store.insert(content.uuid, buffer);
                let ghost view = content@;
                accepted.push(content);
                proof {
                    assert(contents_view(accepted@) =~= before_accepted.push(view));
                }
            },
            Err(rejection) => {
                let ghost view = rejection@;
                rejected.push(rejection);
                proof {
                    assert(rejections_view(rejected@) =~= before_rejected.push(view));
                }
            },
        }
        i += 1;
    }
    Spawned { accepted, rejected }
}

/// As many fresh identifiers as asked for.
fn fresh_uuids(count: usize) -> (uuids: Vec<u128>)
    ensures
        uuids@.len() == count,
{
    let mut uuids: Vec<u128> = Vec::new();
    while uuids.len() < count
        invariant
            uuids@.len() <= count,
        decreases count - uuids@.len(),
    {
        uuids.push(fresh_uuid());
    }
    uuids
}

/// Turns a content's emissions into contents with fresh identifiers and
/// installs the bytes of each in the store. Whatever identifiers are drawn,
/// the outcome is that of `spawn_with_uuids` with them.
pub fn spawn_subcontents(
    parent: &Content,
    emissions: Vec<SubContentEmission>,
    max_depth: usize,
    store: &mut ContentStore,
) -> (spawned: Spawned)
    ensures
        exists|uuids: Seq<u128>|
            uuids.len() == emissions@.len() && (SpawnedView {
                accepted: contents_view(spawned.accepted@),
                rejected: rejections_view(spawned.rejected@),
                store: final(store)@,
            }) == #[trigger] spawn_all(
                parent@,
                old(store)@,
                emissions_view(emissions@),
                uuids,
                emissions@.len() as int,
                max_depth,
            ),
{
    let uuids = fresh_uuids(emissions.len());
    spawn_with_uuids(parent, emissions, &uuids, max_depth, store)
}

/// Every content that the scheduler makes lies one level below its parent
/// and within the maximum depth, and names its parent.
pub proof fn lemma_spawned_depth(
    parent: ContentView,
    store: Map<u128, Seq<u8>>,
    emissions: Seq<EmissionView>,
    uuids: Seq<u128>,
    n: int,
    max_depth: usize,
)
    ensures
        forall|k: int|
            0 <= k < spawn_all(parent, store, emissions, uuids, n, max_depth).accepted.len() ==> {
                let c = #[trigger] spawn_all(
                    parent,
                    store,
                    emissions,
                    uuids,
                    n,
                    max_depth,
                ).accepted[k];
                c.depth == parent.depth + 1 && c.depth <= max_depth && c.parent_uuid == Some(
                    parent.uuid,
                )
            },
    decreases n,
{
    if n > 0 {
        lemma_spawned_depth(parent, store, emissions, uuids, n - 1, max_depth);
    }
}

/// A parent at the maximum depth gets no sub-contents: every emission is
/// refused for the depth limit, and the store stays as it was.
pub proof fn lemma_spawn_at_max_depth(
    parent: ContentView,
    store: Map<u128, Seq<u8>>,
    emissions: Seq<EmissionView>,
    uuids: Seq<u128>,
    n: int,
    max_depth: usize,
)
    requires
        parent.depth >= max_depth,
        0 <= n <= emissions.len(),
    ensures
        spawn_all(parent, store, emissions, uuids, n, max_depth).accepted.len() == 0,
        spawn_all(parent, store, emissions, uuids, n, max_depth).store == store,
        spawn_all(parent, store, emissions, uuids, n, max_depth).rejected.len() == n,
        forall|k: int|
            0 <= k < n ==> (#[trigger] spawn_all(
                parent,
                store,
                emissions,
                uuids,
                n,
                max_depth,
            ).rejected[k]).error == (SpawnError::DepthLimitExceeded { limit: max_depth }),
    decreases n,
{
    if n > 0 {
        lemma_spawn_at_max_depth(parent, store, emissions, uuids, n - 1, max_depth);
    }
}

/// An accepted content resolves in the store it was accepted against, to
/// the bytes that are installed for it: a borrowed body names a parent
/// that is in the store, with a range inside the parent's bytes, and an
/// owned body holds exactly the bytes of its emission.
pub proof fn lemma_spawned_resolves(
    parent: ContentView,
    store: Map<u128, Seq<u8>>,
    emission: EmissionView,
    uuid: u128,
    max_depth: usize,
)
    requires
        spawn_one(parent, store, emission, uuid, max_depth) is Ok,
    ensures
        ({
            let (content, bytes) = spawn_one(parent, store, emission, uuid, max_depth)->Ok_0;
            &&& resolved(store, content.data) == Some(bytes)
            &&& content.data matches ContentDataView::Borrowed { parent_uuid, offset, length }
                ==> store.contains_key(parent_uuid) && offset + length
                <= store[parent_uuid].len()
            &&& emission.data matches EmissionDataView::Bytes(payload) ==> content.data
                == ContentDataView::Owned(payload) && bytes == payload
        }),
{
}


/// The identifiers are pairwise distinct and none is the parent's.
pub open spec fn fresh_for(uuids: Seq<u128>, parent: u128) -> bool {
    &&& forall|i: int, j: int| 0 <= i < j < uuids.len() ==> uuids[i] != uuids[j]
    &&& forall|i: int| 0 <= i < uuids.len() ==> uuids[i] != parent
}

/// What spawning under fresh identifiers leaves in the store: only entries
/// of accepted contents are added, each accepted content carries one of the
/// identifiers drawn so far, and the parent's bytes stay as they were.
proof fn lemma_spawn_store(
    parent: ContentView,
    store: Map<u128, Seq<u8>>,
    emissions: Seq<EmissionView>,
    uuids: Seq<u128>,
    n: int,
    max_depth: usize,
)
    requires
        0 <= n <= uuids.len(),
        fresh_for(uuids, parent.uuid),
    ensures
        ({
            let after = spawn_all(parent, store, emissions, uuids, n, max_depth);
            &&& store.contains_key(parent.uuid) ==> after.store.contains_key(parent.uuid)
                && after.store[parent.uuid] == store[parent.uuid]
            &&& after.store.contains_key(parent.uuid) ==> store.contains_key(parent.uuid)
            &&& forall|k: int|
                0 <= k < after.accepted.len() ==> exists|i: int|
                    0 <= i < n && (#[trigger] after.accepted[k]).uuid == uuids[i]
            &&& forall|k: int|
                0 <= k < after.accepted.len() ==> {
                    let c = #[trigger] after.accepted[k];
                    &&& after.store.contains_key(c.uuid)
                    &&& resolved(after.store, c.data) == Some(after.store[c.uuid])
                }
        }),
    decreases n,
{
    if n > 0 {
        lemma_spawn_store(parent, store, emissions, uuids, n - 1, max_depth);
        let before = spawn_all(parent, store, emissions, uuids, n - 1, max_depth);
        let after = spawn_all(parent, store, emissions, uuids, n, max_depth);
        match spawn_one(parent, before.store, emissions[n - 1], uuids[n - 1], max_depth) {
            Ok((content, bytes)) => {
                assert(content.uuid == uuids[n - 1]);
                assert forall|k: int| 0 <= k < after.accepted.len() implies exists|i: int|
                    0 <= i < n && (#[trigger] after.accepted[k]).uuid == uuids[i] by {
                    if k < before.accepted.len() {
                        let i = choose|i: int|
                            0 <= i < n - 1 && before.accepted[k].uuid == uuids[i];
                        assert(after.accepted[k].uuid == uuids[i]);
                    } else {
                        assert(after.accepted[k].uuid == uuids[n - 1]);
                    }
                }
                assert forall|k: int| 0 <= k < after.accepted.len() implies {
                    let c = #[trigger] after.accepted[k];
                    &&& after.store.contains_key(c.uuid)
                    &&& resolved(after.store, c.data) == Some(after.store[c.uuid])
                } by {
                    if k < before.accepted.len() {
                        let c = before.accepted[k];
                        let i = choose|i: int| 0 <= i < n - 1 && c.uuid == uuids[i];
                        assert(uuids[i] != uuids[n - 1]);
                        assert(after.accepted[k] == c);
                        match c.data {
                            ContentDataView::Borrowed { parent_uuid, offset, length } => {
                                lemma_spawned_depth(
                                    parent,
                                    store,
                                    emissions,
                                    uuids,
                                    n - 1,
                                    max_depth,
                                );
                                lemma_borrowed_from_parent(
                                    parent,
                                    store,
                                    emissions,
                                    uuids,
                                    n - 1,
                                    max_depth,
                                    k,
                                );
                            },
                            _ => {},
                        }
                    }
                }
            },
            Err(_) => {},
        }
    }
}

/// A borrowed body made by the scheduler borrows from the parent.
proof fn lemma_borrowed_from_parent(
    parent: ContentView,
    store: Map<u128, Seq<u8>>,
    emissions: Seq<EmissionView>,
    uuids: Seq<u128>,
    n: int,
    max_depth: usize,
    k: int,
)
    requires
        0 <= k < spawn_all(parent, store, emissions, uuids, n, max_depth).accepted.len(),
    ensures
        spawn_all(parent, store, emissions, uuids, n, max_depth).accepted[k].data matches ContentDataView::Borrowed {
            parent_uuid,
            ..
        } ==> parent_uuid == parent.uuid,
    decreases n,
{
    if n > 0 {
        let before = spawn_all(parent, store, emissions, uuids, n - 1, max_depth);
        if k < before.accepted.len() {
            lemma_borrowed_from_parent(parent, store, emissions, uuids, n - 1, max_depth, k);
        }
    }
}

/// With fresh identifiers, every content that the scheduler makes resolves
/// in the store that spawning leaves: its own bytes are installed under its
/// identifier, and where its body is borrowed, the parent is in the store
/// and the range lies inside the parent's bytes.
pub proof fn lemma_spawned_contents_resolve(
    parent: ContentView,
    store: Map<u128, Seq<u8>>,
    emissions: Seq<EmissionView>,
    uuids: Seq<u128>,
    max_depth: usize,
)
    requires
        uuids.len() == emissions.len(),
        fresh_for(uuids, parent.uuid),
    ensures
        ({
            let after = spawn_all(parent, store, emissions, uuids, emissions.len() as int, max_depth);
            forall|k: int|
                0 <= k < after.accepted.len() ==> {
                    let c = #[trigger] after.accepted[k];
                    &&& after.store.contains_key(c.uuid)
                    &&& resolved(after.store, c.data) == Some(after.store[c.uuid])
                    &&& c.data matches ContentDataView::Borrowed { parent_uuid, offset, length }
                        ==> after.store.contains_key(parent_uuid) && offset + length
                        <= after.store[parent_uuid].len()
                }
        }),
{
    lemma_spawn_store(parent, store, emissions, uuids, emissions.len() as int, max_depth);
}

/// The emissions of the first `n` modules, in module order.
pub open spec fn emitted(results: Seq<ResultView>, n: int) -> Seq<EmissionView>
    decreases n,
{
    if n <= 0 {
        Seq::empty()
    } else {
        emitted(results, n - 1) + results[n - 1].context.subcontent
    }
}

/// Gathers the emissions of every module, in module order.
pub fn collect_emissions(results: Vec<ModuleResult>) -> (emissions: Vec<SubContentEmission>)
    ensures
        emissions_view(emissions@) == emitted(results_view(results@), results@.len() as int),
{
    let ghost reports = results_view(results@);
    let mut emissions: Vec<SubContentEmission> = Vec::new();
    proof {
        assert(emissions_view(emissions@) =~= emitted(reports, 0));
    }
    for result in it: results
        invariant
            it.seq() == results@,
            reports == results_view(results@),
            emissions_view(emissions@) == emitted(reports, it.index() as int),
    {
        let ghost before = emissions_view(emissions@);
        let ghost added = result@.context.subcontent;
        proof {
            assert(reports[it.index() as int] == result@);
        }
        let ModuleResult { name: _, report } = result;
        let mut subcontent = report.context.subcontent;
        emissions.append(&mut subcontent);
        proof {
            assert(emissions_view(emissions@) =~= before + added);
        }
    }
    emissions
}

/// What the scheduler does once every module has reported on a content.
#[derive(Debug)]
pub struct Conclusion {
    /// What to send to the sink, in order.
    pub actions: Vec<SinkAction>,
    /// The sub-contents to enqueue, and the emissions that were refused.
    pub spawned: Spawned,
}

/// Concludes a content: plans what the sink is sent, and turns the
/// emissions of all modules into sub-contents whose bytes are installed in
/// the store.
pub fn conclude_content(
    content: &Content,
    results: Vec<ModuleResult>,
    max_depth: usize,
    store: &mut ContentStore,
) -> (conclusion: Conclusion)
    ensures
        actions_view(conclusion.actions@) == sink_plan(content@, results_view(results@)),
        exists|uuids: Seq<u128>|
            uuids.len() == emitted(results_view(results@), results@.len() as int).len() && (
            SpawnedView {
                accepted: contents_view(conclusion.spawned.accepted@),
                rejected: rejections_view(conclusion.spawned.rejected@),
                store: final(store)@,
            }) == #[trigger] spawn_all(
                content@,
                old(store)@,
                emitted(results_view(results@), results@.len() as int),
                uuids,
                emitted(results_view(results@), results@.len() as int).len() as int,
                max_depth,
            ),
{
    let actions = plan_sink_actions(content, &results);
    let emissions = collect_emissions(results);
    let ghost all = emissions_view(emissions@);
    let spawned = spawn_subcontents(content, emissions, max_depth, store);
    proof {
        let outcome = SpawnedView {
            accepted: contents_view(spawned.accepted@),
            rejected: rejections_view(spawned.rejected@),
            store: store@,
        };
        let uuids = choose|uuids: Seq<u128>|
            uuids.len() == all.len() && outcome == #[trigger] spawn_all(
                content@,
                old(store)@,
                all,
                uuids,
                all.len() as int,
                max_depth,
            );
        assert(all.len() == emissions@.len());
        assert(outcome == spawn_all(content@, old(store)@, all, uuids, all.len() as int, max_depth));
    }
    Conclusion { actions, spawned }
}

/// The bytes of a published bytes emission are the contents that the data
/// file had when the descriptor was closed.
pub proof fn lemma_bytes_emission_is_data_file(fs: crate::fs_model::FsView, path: Seq<char>)
    ensures
        match crate::wasi_model::descriptor_close_outcome(fs, path).0 {
            Some(emission) => match emission.data {
                EmissionDataView::Bytes(payload) => fs.with_path_removed(path).contents_at(
                    crate::wasi_model::data_path_for(path),
                ) == Ok::<Seq<u8>, crate::memory_fs::FsError>(payload),
                EmissionDataView::Slice { .. } => true,
            },
            None => true,
        },
{
}


/// What the sink is sent for a content whose bytes cannot be found: the
/// content is started and at once recorded as failed.
pub open spec fn unresolved_plan(content: ContentView) -> Seq<ActionView> {
    seq![
        ActionView::StartContent {
            uuid: content.uuid,
            filename: content.filename,
            parent_uuid: content.parent_uuid,
        },
        ActionView::FinalizeFailure { uuid: content.uuid, error_message: "ContentResolveError"@ },
    ]
}

/// Plans what the sink is sent for a content that does not resolve.
pub fn plan_unresolved_content(content: &Content) -> (actions: Vec<SinkAction>)
    ensures
        actions_view(actions@) == unresolved_plan(content@),
        final_count(unresolved_plan(content@)) == 1,
{
    let mut actions: Vec<SinkAction> = Vec::new();
    push_action(
        &mut actions,
        SinkAction::StartContent {
            uuid: content.uuid,
            filename: content.filename.clone(),
            parent_uuid: content.parent_uuid,
        },
    );
    push_action(
        &mut actions,
        SinkAction::FinalizeFailure {
            uuid: content.uuid,
            error_message: String::from_str("ContentResolveError"),
        },
    );
    proof {
        let plan = unresolved_plan(content@);
        assert(actions_view(actions@) =~= plan);
        assert(plan.drop_last().drop_last() =~= Seq::<ActionView>::empty());
        assert(final_count(plan.drop_last().drop_last()) == 0);
        assert(final_count(plan.drop_last()) == 0);
    }
    actions
}

} // verus!
