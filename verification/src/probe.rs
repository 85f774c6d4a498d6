//! The revision marker of the repository in the working directory.
//!
//! Reading the repository is the caller's part. The probe says what to read
//! next and what the answers amount to: it asks whether a repository is
//! there, then for its `HEAD` file, and, where that names another reference
//! file, for that file and no further one.

use crate::error::Error;
use crate::text::{chars_of, is_whitespace, string_of, trim_end, trimmed_end};
use vstd::prelude::*;

verus! {

/// The number of characters of a revision marker.
pub const MARKER_LENGTH: usize = 8;

/// The length of the text `ref: `, which starts a symbolic reference.
pub const PREFIX_LENGTH: usize = 5;

/// Whether `head` is a symbolic reference: whether it starts with `ref: `.
pub open spec fn is_symbolic(head: Seq<char>) -> bool {
    &&& head.len() >= PREFIX_LENGTH
    &&& head[0] == 'r'
    &&& head[1] == 'e'
    &&& head[2] == 'f'
    &&& head[3] == ':'
    &&& head[4] == ' '
}

/// The path that the symbolic reference `head` names, relative to the
/// repository's metadata directory: what follows `ref: `, without the
/// whitespace at its end.
pub open spec fn reference_path(head: Seq<char>) -> Seq<char> {
    trim_end(head.skip(PREFIX_LENGTH as int))
}

/// The revision marker that the contents of a reference file give: their
/// first eight characters, where they have that many.
pub open spec fn marker_of(contents: Seq<char>) -> Option<Seq<char>> {
    if contents.len() >= MARKER_LENGTH {
        Some(contents.take(MARKER_LENGTH as int))
    } else {
        None
    }
}

/// The revision marker of a revision whose reference file holds `contents`.
///
/// Fails with [`Error::InvalidRepositoryState`] where `contents` has fewer
/// than eight characters.
pub fn revision_marker(contents: &str) -> (r: Result<String, Error>)
    ensures
        r is Ok <==> contents@.len() >= MARKER_LENGTH,
        r matches Ok(m) ==> m@ == contents@.take(MARKER_LENGTH as int),
        r matches Ok(m) ==> Some(m@) == marker_of(contents@),
        r matches Err(e) ==> e == Error::InvalidRepositoryState,
{
    let v = chars_of(contents);
    if v.len() < MARKER_LENGTH {
        Err(Error::InvalidRepositoryState)
    } else {
        Ok(string_of(&v, 0, MARKER_LENGTH))
    }
}

/// The path of the reference file that `head` names, where `head` is a
/// symbolic reference.
pub fn head_target(head: &str) -> (r: Option<String>)
    ensures
        r is Some <==> is_symbolic(head@),
        r matches Some(p) ==> p@ == reference_path(head@),
{
    let v = chars_of(head);
    if v.len() >= PREFIX_LENGTH && v[0] == 'r' && v[1] == 'e' && v[2] == 'f' && v[3] == ':' && v[4]
        == ' ' {
        let end = trimmed_end(&v, PREFIX_LENGTH, v.len());
        assert(v@.subrange(PREFIX_LENGTH as int, v.len() as int) =~= head@.skip(
            PREFIX_LENGTH as int,
        ));
        Some(string_of(&v, PREFIX_LENGTH, end))
    } else {
        None
    }
}

/// What a probe of the working directory has found so far, and so what it
/// needs to be told next.
#[derive(Debug, PartialEq, Eq)]
pub enum Probe {
    /// Nothing yet: is there a repository?
    Detect,
    /// A repository: what does its `HEAD` file hold?
    Head,
    /// `HEAD` is a symbolic reference: what does the file at `path` hold?
    Reference { path: String },
    /// The probe is over. `marker` is the revision marker, or `None` where
    /// the directory is under no revision control.
    Done { marker: Option<String> },
    /// The probe is over: the repository's state is invalid.
    Failed,
}

/// What the caller found when it did what a [`Probe`] asked for.
#[derive(Debug, PartialEq, Eq)]
pub enum Answer {
    /// There is no repository metadata directory.
    Absent,
    /// There is one.
    Present,
    /// The file asked for holds this text.
    Contents(String),
    /// The file asked for could not be read.
    Unreadable,
}

/// The mathematical value of a [`Probe`].
pub enum ProbeView {
    Detect,
    Head,
    Reference { path: Seq<char> },
    Done { marker: Option<Seq<char>> },
    Failed,
}

/// The mathematical value of an [`Answer`].
pub enum AnswerView {
    Absent,
    Present,
    Contents(Seq<char>),
    Unreadable,
}

impl View for Probe {
    type V = ProbeView;

    open spec fn view(&self) -> ProbeView {
        match *self {
            Probe::Detect => ProbeView::Detect,
            Probe::Head => ProbeView::Head,
            Probe::Reference { path } => ProbeView::Reference { path: path@ },
            Probe::Done { marker: Some(m) } => ProbeView::Done { marker: Some(m@) },
            Probe::Done { marker: None } => ProbeView::Done { marker: None },
            Probe::Failed => ProbeView::Failed,
        }
    }
}

impl View for Answer {
    type V = AnswerView;

    open spec fn view(&self) -> AnswerView {
        match *self {
            Answer::Absent => AnswerView::Absent,
            Answer::Present => AnswerView::Present,
            Answer::Contents(c) => AnswerView::Contents(c@),
            Answer::Unreadable => AnswerView::Unreadable,
        }
    }
}

impl ProbeView {
    /// Whether the probe is over.
    pub open spec fn finished(self) -> bool {
        self is Done || self is Failed
    }

    /// What the probe has found: the revision marker, `None` where the
    /// directory is under no revision control, or the failure of a probe
    /// that failed or is not over.
    pub open spec fn outcome(self) -> Result<Option<Seq<char>>, Error> {
        match self {
            ProbeView::Done { marker } => Ok(marker),
            _ => Err(Error::InvalidRepositoryState),
        }
    }

    /// The probe once the revision's reference file was read: done with the
    /// marker that `contents` give, or failed where they give none.
    pub open spec fn conclude(contents: Seq<char>) -> ProbeView {
        match marker_of(contents) {
            Some(m) => ProbeView::Done { marker: Some(m) },
            None => ProbeView::Failed,
        }
    }

    /// The probe after `answer`.
    ///
    /// Without a repository the probe is done, with no marker. The contents
    /// of `HEAD` either name another reference file or are the revision
    /// themselves; the contents of that other file always are the revision.
    /// A probe that is over stays as it is, and any answer that the probe
    /// did not ask for fails it.
    pub open spec fn step(self, answer: AnswerView) -> ProbeView {
        match (self, answer) {
            (ProbeView::Done { marker }, _) => self,
            (ProbeView::Detect, AnswerView::Absent) => ProbeView::Done { marker: None },
            (ProbeView::Detect, AnswerView::Present) => ProbeView::Head,
            (ProbeView::Head, AnswerView::Contents(head)) => if is_symbolic(head) {
                ProbeView::Reference { path: reference_path(head) }
            } else {
                ProbeView::conclude(head)
            },
            (ProbeView::Reference { path }, AnswerView::Contents(target)) => ProbeView::conclude(
                target,
            ),
            _ => ProbeView::Failed,
        }
    }
}

impl Probe {
    /// A probe that has found nothing yet.
    pub fn new() -> (r: Probe)
        ensures
            r@ == ProbeView::Detect,
    {
        Probe::Detect
    }

    /// Whether the probe is over.
    pub fn is_finished(&self) -> (r: bool)
        ensures
            r == self@.finished(),
    {
        match self {
            Probe::Done { .. } => true,
            Probe::Failed => true,
            _ => false,
        }
    }

    /// The probe once the revision's reference file was read.
    fn conclude(contents: &str) -> (r: Probe)
        ensures
            r@ == ProbeView::conclude(contents@),
    {
        match revision_marker(contents) {
            Ok(m) => Probe::Done { marker: Some(m) },
            Err(_) => Probe::Failed,
        }
    }

    /// The probe after `answer`; see [`ProbeView::step`].
    pub fn advance(self, answer: &Answer) -> (r: Probe)
        ensures
            r@ == self@.step(answer@),
    {
        match self {
            Probe::Done { marker } => Probe::Done { marker },
            Probe::Detect => match answer {
                Answer::Absent => Probe::Done { marker: None },
                Answer::Present => Probe::Head,
                _ => Probe::Failed,
            },
            Probe::Head => match answer {
                Answer::Contents(head) => match head_target(head.as_str()) {
                    Some(path) => Probe::Reference { path },
                    None => Probe::conclude(head.as_str()),
                },
                _ => Probe::Failed,
            },
            Probe::Reference { .. } => match answer {
                Answer::Contents(target) => Probe::conclude(target.as_str()),
                _ => Probe::Failed,
            },
            Probe::Failed => Probe::Failed,
        }
    }
}

/// The short revision marker of the repository that `probe` has looked at,
/// or `None` where there is no repository.
///
/// Fails with [`Error::InvalidRepositoryState`] where the probe failed, and
/// where it is not over.
pub fn git_shorthash(probe: &Probe) -> (r: Result<Option<String>, Error>)
    ensures
        match probe@.outcome() {
            Ok(Some(marker)) => r matches Ok(Some(m)) && m@ == marker,
            Ok(None) => r == Ok::<Option<String>, Error>(None),
            Err(e) => r == Err::<Option<String>, Error>(e),
        },
{
    match probe {
        Probe::Done { marker: Some(m) } => Ok(Some(m.clone())),
        Probe::Done { marker: None } => Ok(None),
        _ => Err(Error::InvalidRepositoryState),
    }
}

/// Without a repository the probe is over at once, with no revision marker
/// and no error: it asks for no file, and whatever it is told afterwards,
/// it stays as it is.
pub proof fn lemma_no_repository(later: AnswerView)
    ensures
        ProbeView::Detect.step(AnswerView::Absent) == (ProbeView::Done { marker: None }),
        ProbeView::Detect.step(AnswerView::Absent).finished(),
        ProbeView::Detect.step(AnswerView::Absent).outcome() == Ok::<Option<Seq<char>>, Error>(
            None,
        ),
        ProbeView::Detect.step(AnswerView::Absent).step(later) == ProbeView::Detect.step(
            AnswerView::Absent,
        ),
{
}

/// A revision that `HEAD` holds itself gives its first eight characters as
/// the marker, and fails the probe where it has fewer.
pub proof fn lemma_direct_head(head: Seq<char>)
    requires
        !is_symbolic(head),
    ensures
        ProbeView::Detect.step(AnswerView::Present).step(AnswerView::Contents(head)).outcome()
            == if head.len() >= MARKER_LENGTH {
            Ok::<Option<Seq<char>>, Error>(Some(head.take(MARKER_LENGTH as int)))
        } else {
            Err::<Option<Seq<char>>, Error>(Error::InvalidRepositoryState)
        },
{
}

/// The probe never asks for more than two files: whatever the answers are,
/// it is over after the third.
pub proof fn lemma_probe_ends(first: AnswerView, second: AnswerView, third: AnswerView)
    ensures
        ProbeView::Detect.step(first).step(second).step(third).finished(),
{
}

/// A symbolic reference is followed once and no further: the contents of the
/// file that `HEAD` names are taken as the revision, also where they look
/// like a symbolic reference themselves.
pub proof fn lemma_one_indirection(head: Seq<char>, target: Seq<char>)
    requires
        is_symbolic(head),
    ensures
        ProbeView::Detect.step(AnswerView::Present).step(AnswerView::Contents(head))
            == (ProbeView::Reference { path: reference_path(head) }),
        ProbeView::Detect.step(AnswerView::Present).step(AnswerView::Contents(head)).step(
            AnswerView::Contents(target),
        ) == ProbeView::conclude(target),
        ProbeView::Detect.step(AnswerView::Present).step(AnswerView::Contents(head)).step(
            AnswerView::Contents(target),
        ).outcome() == if target.len() >= MARKER_LENGTH {
            Ok::<Option<Seq<char>>, Error>(Some(target.take(MARKER_LENGTH as int)))
        } else {
            Err::<Option<Seq<char>>, Error>(Error::InvalidRepositoryState)
        },
{
}

/// A probe that is over does not change any more.
pub proof fn lemma_finished_is_final(probe: ProbeView, answer: AnswerView)
    requires
        probe.finished(),
    ensures
        probe.step(answer) == probe,
{
}

} // verus!
