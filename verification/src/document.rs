//! Whole documents: how an evaluation starts, and what it comes to.
//!
//! An evaluation never reads files, parses documents or computes with floating point itself. It
//! asks its host, and the answers so far are part of its input. Where an answer is missing the
//! evaluation says which question is open; with that answer appended it is run again.

use vstd::prelude::*;

use crate::diagnostic;
use crate::diagnostic::Diagnostic;
use crate::host;
use crate::host::{Query, Reply, ReplyView, Session, SessionView};
use crate::ir::SourceId;
use crate::limits::{Capabilities, EvaluationLimits};
use crate::metadata;
use crate::metadata::{
    copy_document_state, copy_metadata, DocumentMetadataDefaults, IrDocument, IrMetadata,
};
use crate::scope;
use crate::scope::{ContextView, EvaluationContext};
use crate::semantics;
use crate::semantics::{Evaluator, World};

verus! {

/// How far an evaluation has come.
#[derive(Debug)]
pub enum Progress {
    /// The document is evaluated.
    Done { document: IrDocument, diagnostics: Vec<Diagnostic> },
    /// The host has to answer a question first.
    Waiting { query: Query },
}

/// The session of an evaluation that has the answers.
pub open spec fn fresh_session(replies: Seq<ReplyView>) -> SessionView {
    SessionView {
        replies,
        used: 0,
        pending: None,
        diagnostics: Seq::empty(),
        document_state: metadata::initial_state(),
    }
}

/// Whether the result is what the document comes to in the scope, with the answers.
pub open spec fn is_progress(
    r: Progress,
    e: Evaluator,
    document: metadata::DocumentView,
    replies: Seq<ReplyView>,
    c: ContextView,
) -> bool {
    let (evaluated, s) = semantics::eval_document(e, document, fresh_session(replies), c);
    match r {
        Progress::Done { document, diagnostics } => {
            &&& s.pending is None
            &&& document@ == evaluated
            &&& diagnostic::diagnostics_view(diagnostics@) == s.diagnostics
        },
        Progress::Waiting { query } => s.pending == Some(query@),
    }
}

impl Evaluator {
    /// An evaluator with the default capabilities and limits.
    pub fn new() -> (r: Evaluator)
        ensures
            r == (Evaluator {
                capabilities: Capabilities { native_content: true },
                limits: EvaluationLimits {
                    max_materialized_elements: 1_000_000,
                    max_evaluation_depth: 256,
                },
            }),
    {
        Evaluator::with_capabilities_and_limits(
            Capabilities::default(),
            EvaluationLimits::default(),
        )
    }

    /// An evaluator with the given capabilities and the default limits.
    pub fn with_capabilities(capabilities: Capabilities) -> (r: Evaluator)
        ensures
            r == (Evaluator {
                capabilities,
                limits: EvaluationLimits {
                    max_materialized_elements: 1_000_000,
                    max_evaluation_depth: 256,
                },
            }),
    {
        Evaluator::with_capabilities_and_limits(capabilities, EvaluationLimits::default())
    }

    /// An evaluator with the default capabilities and the given limits.
    pub fn with_limits(limits: EvaluationLimits) -> (r: Evaluator)
        ensures
            r == (Evaluator { capabilities: Capabilities { native_content: true }, limits }),
    {
        Evaluator::with_capabilities_and_limits(Capabilities::default(), limits)
    }

    /// An evaluator with the given capabilities and limits.
    pub fn with_capabilities_and_limits(
        capabilities: Capabilities,
        limits: EvaluationLimits,
    ) -> (r: Evaluator)
        ensures
            r == (Evaluator { capabilities, limits }),
    {
        Evaluator { capabilities, limits }
    }

    /// Evaluates a document that has no resources.
    pub fn evaluate(&self, document: &IrDocument, replies: &Vec<Reply>) -> (r: Progress)
        ensures
            is_progress(
                r,
                *self,
                document@,
                host::replies_view(replies@),
                scope::root_context(),
            ),
    {
        let mut context = EvaluationContext::new();
        self.evaluate_with_context(document, replies, &mut context)
    }

    /// Evaluates a document of a project, without metadata defaults.
    pub fn evaluate_project(
        &self,
        source_id: SourceId,
        document: &IrDocument,
        replies: &Vec<Reply>,
    ) -> (r: Progress)
        ensures
            is_progress(
                r,
                *self,
                document@,
                host::replies_view(replies@),
                scope::project_context(source_id, metadata::no_defaults()),
            ),
    {
        let mut context = EvaluationContext::with_resources(
            source_id,
            &DocumentMetadataDefaults::default(),
        );
        self.evaluate_with_context(document, replies, &mut context)
    }

    /// Evaluates a document of a project.
    pub fn evaluate_with_resources(
        &self,
        source_id: SourceId,
        document: &IrDocument,
        metadata_defaults: &DocumentMetadataDefaults,
        replies: &Vec<Reply>,
    ) -> (r: Progress)
        ensures
            is_progress(
                r,
                *self,
                document@,
                host::replies_view(replies@),
                scope::project_context(source_id, metadata_defaults@),
            ),
    {
        let mut context = EvaluationContext::with_resources(source_id, metadata_defaults);
        self.evaluate_with_context(document, replies, &mut context)
    }

    /// Evaluates a document in a scope, which keeps what the document declares.
    pub fn evaluate_with_context(
        &self,
        document: &IrDocument,
        replies: &Vec<Reply>,
        context: &mut EvaluationContext,
    ) -> (r: Progress)
        ensures
            is_progress(r, *self, document@, host::replies_view(replies@), old(context)@),
            final(context)@ == semantics::eval_nodes(
                *self,
                document@.nodes,
                self.limits.max_evaluation_depth as nat,
                World {
                    s: SessionView {
                        document_state: document@.metadata.document_state,
                        ..fresh_session(host::replies_view(replies@))
                    },
                    c: old(context)@,
                },
            ).w.c,
            scope::stays(old(context)@, final(context)@),
    {
        proof {
            reveal(semantics::eval_document);
        }
        let mut session = Session::new(replies);
        session.document_state = copy_document_state(&document.metadata.document_state);
        let nodes = self.evaluate_nodes(
            &document.nodes,
            self.limits.max_evaluation_depth,
            &mut session,
            context,
        );
        let Session { pending, diagnostics, document_state, .. } = session;
        if let Some(query) = pending {
            return Progress::Waiting { query };
        }
        let metadata = copy_metadata(&document.metadata);
        Progress::Done {
            document: IrDocument {
                nodes,
                metadata: IrMetadata { document_state, ..metadata },
            },
            diagnostics,
        }
    }
}

impl Default for Evaluator {
    fn default() -> (r: Self)
        ensures
            r == (Evaluator {
                capabilities: Capabilities { native_content: true },
                limits: EvaluationLimits {
                    max_materialized_elements: 1_000_000,
                    max_evaluation_depth: 256,
                },
            }),
    {
        Evaluator::new()
    }
}

} // verus!
