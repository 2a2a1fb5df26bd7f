use wadup_core::content::{Content, ContentData, ContentStore};
use wadup_core::host::StoreData;
use wadup_core::metadata::{RowError, SchemaConflict};
use wadup_core::module::{CallOutcome, ProcessError, ResourceLimits};
use wadup_core::processor::{conclude_content, ModuleResult, SinkAction};
use wadup_core::shared_buffer::SharedBuffer;
use wadup_core::sink::{ContentStatus, MemorySink, SinkError};
use wadup_core::types::{CellValue, DataType};
use wadup_core::wasi::{Errno, MAX_CAPTURE_BYTES};

/// A stand-in for a guest: what it does between the start and the end of
/// one call.
type Guest = fn(&mut StoreData);

fn write_file(store: &mut StoreData, path: &str, contents: &[u8], close: bool) -> u32 {
    let mut fd = 0u32;
    let errno = store.wasi_ctx.path_open(3, 0, path, 1 | 8, 64, 0, 0, &mut fd);
    assert_eq!(errno, Errno::Success, "open {}", path);
    assert_eq!(store.wasi_ctx.fd_write(fd, contents), (Errno::Success, contents.len()));
    if close {
        assert_eq!(store.fd_close(fd), Errno::Success);
    }
    fd
}

fn data_bin(store: &mut StoreData) -> Vec<u8> {
    let mut fd = 0u32;
    assert_eq!(store.wasi_ctx.path_open(3, 0, "data.bin", 0, 2, 0, 0, &mut fd), Errno::Success);
    let (errno, data) = store.wasi_ctx.fd_read(fd, usize::MAX);
    assert_eq!(errno, Errno::Success);
    assert_eq!(store.fd_close(fd), Errno::Success);
    data
}

fn byte_counter(store: &mut StoreData) {
    let size = data_bin(store).len();
    let json = format!(
        "{{\"tables\":[{{\"name\":\"file_sizes\",\"columns\":[{{\"name\":\"size_bytes\",\
         \"data_type\":\"Int64\"}}]}}],\"rows\":[{{\"table_name\":\"file_sizes\",\
         \"values\":[{{\"Int64\":{}}}]}}]}}",
        size
    );
    write_file(store, "/metadata/output_0.json", json.as_bytes(), true);
}

fn extractor(store: &mut StoreData) {
    let data = data_bin(store);
    if data.len() != 12 {
        return;
    }
    write_file(store, "/subcontent/data_0.bin", &data[..5], true);
    write_file(store, "/subcontent/metadata_0.json", b"{\"filename\":\"one.txt\"}", true);
    write_file(store, "/subcontent/data_1.bin", &data[5..], true);
    write_file(store, "/subcontent/metadata_1.json", b"{\"filename\":\"two.txt\"}", true);
}

fn slicer(store: &mut StoreData) {
    if data_bin(store).len() != 1000 {
        return;
    }
    write_file(
        store,
        "/subcontent/metadata_0.json",
        b"{\"filename\":\"a\",\"offset\":0,\"length\":100}",
        true,
    );
    write_file(
        store,
        "/subcontent/metadata_1.json",
        b"{\"filename\":\"b\",\"offset\":900,\"length\":100}",
        true,
    );
}

fn run_module(
    store: &mut StoreData,
    name: &str,
    content: &Content,
    data: &SharedBuffer,
    guest: Guest,
    outcome: CallOutcome,
) -> ModuleResult {
    store.begin_call(content.uuid, data.clone(), &content.filename);
    guest(store);
    ModuleResult { name: name.to_string(), report: store.finish_call(&outcome) }
}

struct Run {
    actions: Vec<SinkAction>,
    contents: Vec<Content>,
}

/// Processes the roots and everything spawned from them, depth first,
/// through every module in order.
fn process(roots: Vec<Content>, modules: &[(&str, Guest)], max_depth: usize) -> Run {
    let mut store = ContentStore::new();
    let mut instances: Vec<StoreData> = modules.iter().map(|_| StoreData::new()).collect();
    let mut queue = roots;
    let mut run = Run { actions: Vec::new(), contents: Vec::new() };
    while let Some(content) = queue.pop() {
        let data = store.install(&content).expect("content resolves");
        let mut results = Vec::new();
        for (i, (name, guest)) in modules.iter().enumerate() {
            let outcome = CallOutcome::Returned(0);
            results.push(run_module(&mut instances[i], name, &content, &data, *guest, outcome));
        }
        let conclusion = conclude_content(&content, results, max_depth, &mut store);
        run.actions.extend(conclusion.actions);
        for child in conclusion.spawned.accepted.into_iter().rev() {
            queue.push(child);
        }
        run.contents.push(content);
    }
    run
}

fn inserted_sizes(actions: &[SinkAction]) -> Vec<(u128, i64)> {
    actions
        .iter()
        .filter_map(|a| match a {
            SinkAction::InsertRow { table, uuid, values } if table == "file_sizes" => {
                match values[..] {
                    [CellValue::Int64(size)] => Some((*uuid, size)),
                    _ => None,
                }
            }
            _ => None,
        })
        .collect()
}

fn successes(actions: &[SinkAction]) -> Vec<u128> {
    actions
        .iter()
        .filter_map(|a| match a {
            SinkAction::FinalizeSuccess { uuid } => Some(*uuid),
            _ => None,
        })
        .collect()
}

#[test]
fn byte_counter_on_a_single_file() {
    let root = Content::new_root(
        SharedBuffer::from_vec(b"Hello, World!".to_vec()),
        "hello.txt".to_string(),
    );
    let uuid = root.uuid;
    let run = process(vec![root], &[("byte-counter", byte_counter)], 100);
    assert_eq!(successes(&run.actions), vec![uuid]);
    assert_eq!(inserted_sizes(&run.actions), vec![(uuid, 13)]);
    let declared: Vec<&SinkAction> = run
        .actions
        .iter()
        .filter(|a| matches!(a, SinkAction::DefineTable { .. }))
        .collect();
    assert_eq!(declared.len(), 1);
    match declared[0] {
        SinkAction::DefineTable { schema } => {
            assert_eq!(schema.name, "file_sizes");
            assert_eq!(schema.columns.len(), 1);
            assert_eq!(schema.columns[0].name, "size_bytes");
            assert_eq!(schema.columns[0].data_type, DataType::Int64);
        }
        _ => unreachable!(),
    }
    assert!(matches!(
        &run.actions[0],
        SinkAction::StartContent { filename, parent_uuid: None, .. } if filename == "hello.txt"
    ));
}

#[test]
fn extractor_and_byte_counter() {
    let archive =
        Content::new_root(SharedBuffer::from_vec(b"fivesevenSEV".to_vec()), "a.zip".to_string());
    let uuid = archive.uuid;
    let run = process(
        vec![archive],
        &[("zip-extractor", extractor), ("byte-counter", byte_counter)],
        100,
    );
    assert_eq!(run.contents.len(), 3);
    assert_eq!(successes(&run.actions).len(), 3);
    let mut sizes: Vec<i64> = inserted_sizes(&run.actions).iter().map(|(_, s)| *s).collect();
    sizes.sort();
    assert_eq!(sizes, vec![5, 7, 12]);
    let children: Vec<&Content> =
        run.contents.iter().filter(|c| c.parent_uuid == Some(uuid)).collect();
    assert_eq!(children.len(), 2);
    assert_eq!(children[0].filename, "one.txt");
    assert_eq!(children[1].filename, "two.txt");
    assert!(matches!(&children[0].data, ContentData::Owned(b) if b.as_slice() == b"fives"));
    assert!(matches!(&children[1].data, ContentData::Owned(b) if b.as_slice() == b"evenSEV"));
    assert!(children.iter().all(|c| c.depth == 1));
    // the parent's rows come before its children's
    assert_eq!(inserted_sizes(&run.actions)[0], (uuid, 12));
    let started: Vec<Option<u128>> = run
        .actions
        .iter()
        .filter_map(|a| match a {
            SinkAction::StartContent { parent_uuid, .. } => Some(*parent_uuid),
            _ => None,
        })
        .collect();
    assert_eq!(started, vec![None, Some(uuid), Some(uuid)]);
}

#[test]
fn slice_emission() {
    let data: Vec<u8> = (0..1000u32).map(|i| (i * 7 % 256) as u8).collect();
    let root = Content::new_root(SharedBuffer::from_vec(data.clone()), "big.bin".to_string());
    let uuid = root.uuid;
    let mut store = ContentStore::new();
    let buffer = store.install(&root).unwrap();
    let mut instance = StoreData::new();
    let result =
        run_module(&mut instance, "slicer", &root, &buffer, slicer, CallOutcome::Returned(0));
    let conclusion = conclude_content(&root, vec![result], 100, &mut store);
    let children = conclusion.spawned.accepted;
    assert_eq!(children.len(), 2);
    assert!(matches!(
        children[0].data,
        ContentData::Borrowed { parent_uuid, offset: 0, length: 100 } if parent_uuid == uuid
    ));
    assert!(matches!(
        children[1].data,
        ContentData::Borrowed { parent_uuid, offset: 900, length: 100 } if parent_uuid == uuid
    ));
    assert_eq!(store.resolve(&children[0]).unwrap().as_slice(), &data[..100]);
    assert_eq!(store.resolve(&children[1]).unwrap().as_slice(), &data[900..]);
    assert_eq!((children[0].filename.as_str(), children[1].filename.as_str()), ("a", "b"));
}

#[test]
fn metadata_streaming() {
    let root = Content::new_root(SharedBuffer::from_vec(vec![1, 2, 3]), "s".to_string());
    let mut instance = StoreData::new();
    instance.begin_call(root.uuid, SharedBuffer::from_vec(vec![1, 2, 3]), "s");
    for i in 0..3 {
        let path = format!("/metadata/out_{}.json", i);
        let json = format!(
            "{{\"rows\":[{{\"table_name\":\"t\",\"values\":[{{\"Int64\":{}}}]}}]}}",
            i
        );
        write_file(&mut instance, &path, json.as_bytes(), true);
        // published at close, while the call is still running
        assert_eq!(instance.processing_ctx.metadata.len(), i + 1);
        assert!(instance.wasi_ctx.filesystem.open_file(&path).is_err());
    }
    write_file(
        &mut instance,
        "/metadata/late.json",
        b"{\"rows\":[{\"table_name\":\"t\",\"values\":[{\"Int64\":3}]}]}",
        false,
    );
    assert_eq!(instance.processing_ctx.metadata.len(), 3);
    let report = instance.finish_call(&CallOutcome::Returned(0));
    assert!(report.error.is_none());
    let values: Vec<i64> = report
        .context
        .metadata
        .iter()
        .map(|row| match row.values[0] {
            CellValue::Int64(v) => v,
            _ => panic!("unexpected cell"),
        })
        .collect();
    assert_eq!(values, vec![0, 1, 2, 3]);
    assert!(instance.wasi_ctx.filesystem.open_file("/metadata/late.json").is_err());
    assert!(instance.processing_ctx.metadata.is_empty());
}

#[test]
fn fuel_exhaustion() {
    let limits = ResourceLimits { fuel: Some(1_000_000), max_memory: None, max_stack: None };
    let spinning = Content::new_root(SharedBuffer::from_vec(vec![0]), "spin".to_string());
    let fine = Content::new_root(SharedBuffer::from_vec(vec![1, 2]), "fine".to_string());
    let mut store = ContentStore::new();
    let mut instance = StoreData::new();

    assert_eq!(limits.fuel_for_call(), Some(1_000_000));
    let data = store.install(&spinning).unwrap();
    instance.begin_call(spinning.uuid, data, "spin");
    let report = instance.finish_call(&CallOutcome::Trapped(
        "error while executing at wasm backtrace: all fuel consumed by WebAssembly".to_string(),
    ));
    assert!(matches!(report.error, Some(ProcessError::CpuExhausted)));
    let conclusion = conclude_content(
        &spinning,
        vec![ModuleResult { name: "looper".to_string(), report }],
        10,
        &mut store,
    );
    match conclusion.actions.last() {
        Some(SinkAction::FinalizeFailure { uuid, error_message }) => {
            assert_eq!(*uuid, spinning.uuid);
            assert!(error_message.contains("CpuExhausted"));
            assert_eq!(error_message, "Module 'looper' failed: CpuExhausted");
        }
        _ => panic!("expected failure"),
    }

    // the next content gets the same fuel and is processed normally
    assert_eq!(limits.fuel_for_call(), Some(1_000_000));
    let data = store.install(&fine).unwrap();
    let result =
        run_module(&mut instance, "looper", &fine, &data, byte_counter, CallOutcome::Returned(0));
    let conclusion = conclude_content(&fine, vec![result], 10, &mut store);
    assert!(matches!(conclusion.actions.last(), Some(SinkAction::FinalizeSuccess { .. })));
    assert_eq!(inserted_sizes(&conclusion.actions), vec![(fine.uuid, 2)]);
}

fn module_a(store: &mut StoreData) {
    write_file(
        store,
        "/metadata/a.json",
        b"{\"tables\":[{\"name\":\"t\",\"columns\":[{\"name\":\"x\",\"data_type\":\"Int64\"}]}],\
          \"rows\":[{\"table_name\":\"t\",\"values\":[{\"Int64\":1}]}]}",
        true,
    );
}

fn module_b(store: &mut StoreData) {
    write_file(
        store,
        "/metadata/b.json",
        b"{\"tables\":[{\"name\":\"t\",\"columns\":[{\"name\":\"x\",\"data_type\":\"String\"}]}],\
          \"rows\":[{\"table_name\":\"t\",\"values\":[{\"String\":\"one\"}]}]}",
        true,
    );
}

#[test]
fn schema_conflict_across_modules() {
    let root = Content::new_root(SharedBuffer::from_vec(vec![0]), "c".to_string());
    let run = process(vec![root], &[("a", module_a), ("b", module_b)], 10);
    assert_eq!(successes(&run.actions).len(), 1);

    let uuid = run.contents[0].uuid;
    let mut sink = MemorySink::new();
    let errors = sink.apply_all(run.actions);
    assert_eq!(
        errors,
        vec![
            SinkError::SchemaConflict(SchemaConflict::ColumnType { index: 0 }),
            SinkError::Row(RowError::Type { index: 0 })
        ]
    );
    assert_eq!(sink.rows().len(), 1);
    assert_eq!(sink.rows()[0].table, "t");
    assert_eq!(sink.rows()[0].uuid, uuid);
    assert!(matches!(sink.rows()[0].values[..], [CellValue::Int64(1)]));
    assert!(matches!(sink.status(uuid), Some(ContentStatus::Success)));
    assert_eq!(sink.contents().len(), 1);
}

fn chatty(store: &mut StoreData) {
    let chunk = vec![b'x'; MAX_CAPTURE_BYTES + 1];
    assert_eq!(store.wasi_ctx.fd_write(1, &chunk).0, Errno::Success);
    assert_eq!(store.wasi_ctx.fd_write(2, b"warn").0, Errno::Success);
}

fn quiet(_store: &mut StoreData) {}

#[test]
fn captured_output_reaches_the_sink_with_its_flags() {
    let root = Content::new_root(SharedBuffer::from_vec(vec![0]), "c".to_string());
    let run = process(vec![root], &[("chatty", chatty), ("quiet", quiet)], 10);
    let records: Vec<&SinkAction> = run
        .actions
        .iter()
        .filter(|a| matches!(a, SinkAction::RecordModuleOutput { .. }))
        .collect();
    assert_eq!(records.len(), 1);
    match records[0] {
        SinkAction::RecordModuleOutput {
            module_name,
            stdout,
            stderr,
            stdout_truncated,
            stderr_truncated,
            ..
        } => {
            assert_eq!(module_name, "chatty");
            assert_eq!(stdout.as_ref().unwrap().len(), MAX_CAPTURE_BYTES);
            assert_eq!(stderr.as_deref(), Some(&b"warn"[..]));
            assert!(*stdout_truncated);
            assert!(!*stderr_truncated);
        }
        _ => unreachable!(),
    }
}

#[test]
fn a_failed_call_keeps_its_output_and_drops_its_emissions() {
    let root = Content::new_root(SharedBuffer::from_vec(vec![0]), "c".to_string());
    let mut instance = StoreData::new();
    instance.begin_call(root.uuid, SharedBuffer::from_vec(vec![0]), "c");
    write_file(
        &mut instance,
        "/metadata/m.json",
        b"{\"rows\":[{\"table_name\":\"t\",\"values\":[]}]}",
        true,
    );
    write_file(&mut instance, "/subcontent/data_0.bin", b"d", true);
    write_file(&mut instance, "/subcontent/metadata_0.json", b"{\"filename\":\"f\"}", true);
    instance.wasi_ctx.fd_write(2, b"panicked");
    let report = instance.finish_call(&CallOutcome::Returned(2));
    assert!(matches!(report.error, Some(ProcessError::ModuleError(2))));
    assert!(report.context.metadata.is_empty());
    assert!(report.context.subcontent.is_empty());
    assert!(report.context.table_schemas.is_empty());
    assert_eq!(report.context.stderr, b"panicked".to_vec());
}

#[test]
fn each_call_starts_from_a_clean_slate() {
    let mut instance = StoreData::new();
    for name in ["tmp", "metadata", "subcontent"] {
        assert!(instance.wasi_ctx.filesystem.get_dir(name).is_ok());
    }
    assert_eq!(instance.wasi_ctx.filesystem.read_file("/data.bin").unwrap(), Vec::<u8>::new());
    instance.begin_call(1, SharedBuffer::from_vec(b"first".to_vec()), "one.txt");
    assert_eq!(data_bin(&mut instance), b"first".to_vec());
    instance.wasi_ctx.fd_write(1, b"noise");
    write_file(&mut instance, "/tmp/scratch", b"kept", true);
    let report = instance.finish_call(&CallOutcome::Exited(0));
    assert!(report.error.is_none());
    assert_eq!(report.context.stdout, b"noise".to_vec());
    assert_eq!(report.context.content_uuid, 1);

    instance.begin_call(2, SharedBuffer::from_vec(b"second".to_vec()), "two.txt");
    assert_eq!(data_bin(&mut instance), b"second".to_vec());
    assert_eq!(instance.wasi_ctx.take_stdout(), (vec![], false));
    assert_eq!(instance.processing_ctx.content_uuid, 2);
    assert_eq!(instance.processing_ctx.content_data.as_slice(), b"second");
    let (_, _, block) = instance.wasi_ctx.environ_get();
    assert_eq!(block, b"WADUP_FILENAME=two.txt\0".to_vec());
    assert_eq!(instance.wasi_ctx.filesystem.read_file("/tmp/scratch").unwrap(), b"kept".to_vec());
}
