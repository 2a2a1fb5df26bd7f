//! The per-instance host state and the steps around one call into a
//! module: preparing the instance for a content, taking in what the guest
//! publishes by closing files, and harvesting the call's results.

use crate::context::{ContextView, ProcessingContext, SubContentEmission};
use crate::fs_model::FsView;
use crate::memory_fs::MemoryFilesystem;
use crate::module::{classify_outcome, outcome_error, CallOutcome, ProcessError};
use crate::shared_buffer::SharedBuffer;
use crate::text::path_components;
use crate::types::{MetadataRow, TableSchema};
use crate::wasi::{Errno, Fd, WasiCtx, FIRST_FREE_FD};
use crate::wasi_model::{buffers_view, env_view, initial_fds, WasiView};
use vstd::prelude::*;
use vstd::string::StringExecFns;

verus! {

/// The filesystem of a fresh instance: empty directories `/tmp`,
/// `/metadata` and `/subcontent`, and an empty `/data.bin`.
pub open spec fn instance_filesystem() -> FsView {
    let root = FsView { files: Seq::empty(), dirs: seq![Seq::empty()] };
    let with_tmp = root.with_dirs_made(0, path_components("/tmp"@)).0;
    let with_metadata = with_tmp.with_dirs_made(0, path_components("/metadata"@)).0;
    let with_subcontent = with_metadata.with_dirs_made(0, path_components("/subcontent"@)).0;
    with_subcontent.with_data_bin(Seq::empty())
}

/// The environment that a guest sees while it processes the content called
/// `filename`.
pub open spec fn call_environment(filename: Seq<char>) -> Seq<(Seq<char>, Seq<char>)> {
    seq![("WADUP_FILENAME"@, filename)]
}

/// Everything attached to one module instance.
#[derive(Debug)]
pub struct StoreData {
    pub processing_ctx: ProcessingContext,
    pub wasi_ctx: WasiCtx,
}

/// What one call into a module produced: the error it ended with, if any,
/// and the harvest. The harvest of a failed call holds the captured output
/// only.
#[derive(Debug)]
pub struct ModuleReport {
    pub error: Option<ProcessError>,
    pub context: ProcessingContext,
}

impl StoreData {
    /// The state is well formed.
    pub open spec fn wf(&self) -> bool {
        self.wasi_ctx.wf()
    }

    /// The state of a fresh instance: no content yet, the standard
    /// directories in place, nothing captured, an empty environment.
    pub fn new() -> (store: Self)
        ensures
            store.wf(),
            store.processing_ctx@ == ContextView::fresh(0, Seq::empty()),
            store.wasi_ctx@ == (WasiView {
                fs: instance_filesystem(),
                fds: initial_fds(),
                next_fd: FIRST_FREE_FD,
                env: Seq::empty(),
                stdout: Seq::empty(),
                stderr: Seq::empty(),
                stdout_truncated: false,
                stderr_truncated: false,
            }),
    {
        let mut filesystem = MemoryFilesystem::new();
        let _ = filesystem.create_dir_all("/tmp");
        let _ = filesystem.create_dir_all("/metadata");
        let _ = filesystem.create_dir_all("/subcontent");
        let empty = SharedBuffer::from_vec(Vec::new());
        let _ = filesystem.set_data_bin(empty.to_bytes());
        let env: Vec<(String, String)> = Vec::new();
        proof {
            assert(env_view(env@) =~= Seq::empty());
        }
        StoreData {
            processing_ctx: ProcessingContext::new(0, empty),
            wasi_ctx: WasiCtx::new(filesystem, env),
        }
    }

    /// Prepares the instance for a call on the given content: a fresh
    /// context, the content behind `/data.bin`, nothing captured, and the
    /// content's name in the environment.
    pub fn begin_call(&mut self, content_uuid: u128, content_data: SharedBuffer, filename: &str)
        requires
            old(self).wf(),
        ensures
            final(self).wf(),
            final(self).processing_ctx@ == ContextView::fresh(content_uuid, content_data@),
            final(self).wasi_ctx@ == (WasiView {
                fs: old(self).wasi_ctx@.fs.with_data_bin(content_data@),
                env: call_environment(filename@),
                stdout: Seq::empty(),
                stderr: Seq::empty(),
                stdout_truncated: false,
                stderr_truncated: false,
                ..old(self).wasi_ctx@
            }),
    {
        self.wasi_ctx.set_data_bin(content_data.to_bytes());
        self.wasi_ctx.clear_capture();
        let mut env: Vec<(String, String)> = Vec::new();
        env.push((String::from_str("WADUP_FILENAME"), filename.to_owned()));
        proof {
            assert(env_view(env@) =~= call_environment(filename@));
        }
        self.wasi_ctx.set_env_vars(env);
        self.processing_ctx = ProcessingContext::new(content_uuid, content_data);
    }

    /// Closes a descriptor and takes in what the close published.
    pub fn fd_close(&mut self, fd: Fd) -> (errno: Errno)
        requires
            old(self).wf(),
        ensures
            final(self).wf(),
            errno == old(self).wasi_ctx@.close_outcome(fd).0,
            final(self).wasi_ctx@ == old(self).wasi_ctx@.close_outcome(fd).2,
            final(self).processing_ctx@ == old(self).processing_ctx@.absorbed(
                old(self).wasi_ctx@.close_outcome(fd).1,
            ),
    {
        let (errno, published) = self.wasi_ctx.fd_close(fd);
        self.processing_ctx.absorb(published);
        errno
    }

    /// Takes in the metadata files that the guest left unclosed.
    #[verifier::loop_isolation(false)]
    pub fn sweep(&mut self)
        requires
            old(self).wf(),
        ensures
            final(self).wf(),
            final(self).wasi_ctx@ == (WasiView {
                fs: old(self).wasi_ctx@.metadata_sweep().1,
                ..old(self).wasi_ctx@
            }),
            final(self).processing_ctx@ == old(self).processing_ctx@.with_all_metadata(
                old(self).wasi_ctx@.metadata_sweep().0,
                old(self).wasi_ctx@.metadata_sweep().0.len() as int,
            ),
    {
        let collected = self.wasi_ctx.sweep_metadata();
        let ghost files = buffers_view(collected@);
        let mut i: usize = 0;
        while i < collected.len()
            invariant
                i <= collected@.len(),
                self.wasi_ctx@ == (WasiView {
                    fs: old(self).wasi_ctx@.metadata_sweep().1,
                    ..old(self).wasi_ctx@
                }),
                self.wasi_ctx.wf(),
                self.processing_ctx@ == old(self).processing_ctx@.with_all_metadata(
                    files,
                    i as int,
                ),
            decreases collected@.len() - i,
        {
            proof {
                assert(files[i as int] == collected@[i as int]@);
            }
            let _ = self.processing_ctx.absorb_metadata(collected[i].as_slice());
            i += 1;
        }
    }

    /// Ends a call: sweeps the metadata directory, and hands out the
    /// harvest together with the error that the outcome stands for. A
    /// failed call's emissions are dropped; its captured output is kept.
    pub fn finish_call(&mut self, outcome: &CallOutcome) -> (report: ModuleReport)
        requires
            old(self).wf(),
        ensures
            final(self).wf(),
            final(self).wasi_ctx@ == (WasiView {
                fs: old(self).wasi_ctx@.metadata_sweep().1,
                ..old(self).wasi_ctx@
            }),
            final(self).processing_ctx@ == old(self).processing_ctx@.cleared(),
            match outcome_error(outcome@) {
                Some(error) => report.error matches Some(e) && e@ == error,
                None => report.error is None,
            },
            report.context@ == harvested(
                old(self).processing_ctx@,
                old(self).wasi_ctx@,
                outcome_error(outcome@) is None,
            ),
    {
        self.sweep();
        let error = classify_outcome(outcome);
        let (stdout, stdout_truncated) = self.wasi_ctx.take_stdout();
        let (stderr, stderr_truncated) = self.wasi_ctx.take_stderr();
        let mut subcontent: Vec<SubContentEmission> = Vec::new();
        let mut metadata: Vec<MetadataRow> = Vec::new();
        let mut table_schemas: Vec<TableSchema> = Vec::new();
        core::mem::swap(&mut self.processing_ctx.subcontent, &mut subcontent);
        core::mem::swap(&mut self.processing_ctx.metadata, &mut metadata);
        core::mem::swap(&mut self.processing_ctx.table_schemas, &mut table_schemas);
        if error.is_some() {
            subcontent = Vec::new();
            metadata = Vec::new();
            table_schemas = Vec::new();
        }
        let context = ProcessingContext {
            content_uuid: self.processing_ctx.content_uuid,
            content_data: self.processing_ctx.content_data.clone(),
            subcontent,
            metadata,
            table_schemas,
            stdout,
            stderr,
            stdout_truncated,
            stderr_truncated,
        };
        proof {
            assert(self.processing_ctx@.subcontent =~= Seq::empty());
            assert(self.processing_ctx@.metadata =~= Seq::empty());
            assert(self.processing_ctx@.table_schemas =~= Seq::empty());
            if error.is_some() {
                assert(context@.subcontent =~= Seq::empty());
                assert(context@.metadata =~= Seq::empty());
                assert(context@.table_schemas =~= Seq::empty());
            }
            lemma_sweep_keeps_rest(
                old(self).processing_ctx@,
                old(self).wasi_ctx@.metadata_sweep().0,
                old(self).wasi_ctx@.metadata_sweep().0.len() as int,
            );
        }
        ModuleReport { error, context }
    }
}

/// The harvest of a call: what is pending after the sweep, with the
/// captured output. Where the call failed, only the captured output.
pub open spec fn harvested(ctx: ContextView, wasi: WasiView, succeeded: bool) -> ContextView {
    let swept = wasi.metadata_sweep().0;
    let gathered = ctx.with_all_metadata(swept, swept.len() as int);
    let kept = if succeeded {
        gathered
    } else {
        gathered.cleared()
    };
    ContextView {
        stdout: wasi.stdout,
        stderr: wasi.stderr,
        stdout_truncated: wasi.stdout_truncated,
        stderr_truncated: wasi.stderr_truncated,
        ..kept
    }
}

/// Taking in metadata files touches only the pending schemas and rows.
pub proof fn lemma_sweep_keeps_rest(ctx: ContextView, files: Seq<Seq<u8>>, n: int)
    ensures
        ctx.with_all_metadata(files, n).content_uuid == ctx.content_uuid,
        ctx.with_all_metadata(files, n).content_data == ctx.content_data,
        ctx.with_all_metadata(files, n).subcontent == ctx.subcontent,
        ctx.with_all_metadata(files, n).stdout == ctx.stdout,
        ctx.with_all_metadata(files, n).stderr == ctx.stderr,
        ctx.with_all_metadata(files, n).stdout_truncated == ctx.stdout_truncated,
        ctx.with_all_metadata(files, n).stderr_truncated == ctx.stderr_truncated,
    decreases n,
{
    if n > 0 {
        lemma_sweep_keeps_rest(ctx, files, n - 1);
    }
}

} // verus!
