//! What a workflow run has brought about so far.
use crate::session::{gen_session_id, is_session_id};
use crate::strmap::{put, StrMap};
use crate::text::{cat3, group_texts, opt_text, texts};
use vstd::prelude::*;

verus! {

/// The record of a run: its outputs, which stages succeeded, and its errors.
pub struct RunResult {
    pub session_id: String,
    pub parent_id: Option<String>,
    pub children: Vec<String>,
    pub outputs: StrMap<String>,
    pub success: StrMap<bool>,
    pub errors: Vec<String>,
}

/// The record of a run, as plain values.
#[verifier::ext_equal]
pub struct ResultView {
    pub session_id: Seq<char>,
    pub parent_id: Option<Seq<char>>,
    pub children: Seq<Seq<char>>,
    pub outputs: Seq<(Seq<char>, Seq<char>)>,
    pub success: Seq<(Seq<char>, bool)>,
    pub errors: Seq<Seq<char>>,
}

impl View for RunResult {
    type V = ResultView;

    open spec fn view(&self) -> ResultView {
        ResultView {
            session_id: self.session_id@,
            parent_id: opt_text(self.parent_id),
            children: texts(self.children@),
            outputs: self.outputs.entries(),
            success: self.success.entries(),
            errors: texts(self.errors@),
        }
    }
}

impl RunResult {
    /// An empty record with a new session id, which is the output `SESSION`.
    pub fn new() -> (r: Self)
        ensures
            is_session_id(r.session_id@),
            r.parent_id is None,
            r.children@.len() == 0,
            r.outputs@ == Map::<Seq<char>, Seq<char>>::empty().insert("SESSION"@, r.session_id@),
            r.success@ == Map::<Seq<char>, bool>::empty(),
            r.errors@.len() == 0,
    {
        let session_id = gen_session_id();
        let mut outputs: StrMap<String> = StrMap::new();
        outputs.insert("SESSION".to_owned(), session_id.clone());
        RunResult {
            session_id,
            parent_id: None,
            children: Vec::new(),
            outputs,
            success: StrMap::new(),
            errors: Vec::new(),
        }
    }

    /// Records the output of a stage that succeeded.
    pub fn set_success(&mut self, stage_id: &str, output: String)
        ensures
            final(self).outputs@ == old(self).outputs@.insert(stage_id@, output@),
            final(self).outputs.entries() == put(
                old(self).outputs.entries(),
                stage_id@,
                output@,
            ),
            final(self).success@ == old(self).success@.insert(stage_id@, true),
            final(self).success.entries() == put(
                old(self).success.entries(),
                stage_id@,
                true,
            ),
            final(self).session_id == old(self).session_id,
            final(self).parent_id == old(self).parent_id,
            final(self).children == old(self).children,
            final(self).errors == old(self).errors,
    {
        self.outputs.insert(stage_id.to_owned(), output);
        self.success.insert(stage_id.to_owned(), true);
    }

    /// Records the error of a stage that failed.
    pub fn set_error(&mut self, stage_id: &str, err: String)
        ensures
            final(self).success@ == old(self).success@.insert(stage_id@, false),
            final(self).success.entries() == put(
                old(self).success.entries(),
                stage_id@,
                false,
            ),
            texts(final(self).errors@) == texts(old(self).errors@).push(stage_id@ + ": "@ + err@),
            final(self).outputs == old(self).outputs,
            final(self).session_id == old(self).session_id,
            final(self).parent_id == old(self).parent_id,
            final(self).children == old(self).children,
    {
        broadcast use group_texts;

        self.success.insert(stage_id.to_owned(), false);
        self.errors.push(cat3(stage_id, ": ", err.as_str()));
    }

    /// Records the session of a sub-workflow.
    pub fn add_child(&mut self, session_id: String)
        ensures
            texts(final(self).children@) == texts(old(self).children@).push(session_id@),
            final(self).outputs == old(self).outputs,
            final(self).success == old(self).success,
            final(self).errors == old(self).errors,
            final(self).session_id == old(self).session_id,
            final(self).parent_id == old(self).parent_id,
    {
        broadcast use group_texts;

        self.children.push(session_id);
    }
}

} // verus!
