//! Layout of a run's output.
//!
//! Sources are processed in order.  A source that fails to open
//! contributes a diagnostic line on standard error and nothing on
//! standard output.  A source that opens contributes its truncated
//! contents; in a run with several sources a banner line precedes them,
//! and a single blank line separates the block from whatever output was
//! already emitted this run.

use crate::config::Config;
use crate::trunc::head_bytes;
use crate::trunc::head_lines;
use crate::trunc::take_bytes;
use crate::trunc::take_lines;
use vstd::prelude::*;
use vstd::utf8::encode_utf8;

verus! {

/// The banner line announcing `name`, with its terminator.
pub open spec fn banner_line(name: Seq<char>) -> Seq<char> {
    "==> "@ + name + " <==\n"@
}

/// The bytes a banner contributes to standard output.
pub open spec fn banner_bytes(name: Seq<char>) -> Seq<u8> {
    encode_utf8(banner_line(name))
}

/// The bytes of the blank separator line.
pub open spec fn separator_bytes() -> Seq<u8> {
    encode_utf8("\n"@)
}

/// What `content` becomes under `c`'s truncation mode: its first bytes
/// when a byte bound is present, its first lines otherwise.
pub open spec fn truncated(c: Config, content: Seq<u8>) -> Seq<u8> {
    match c.bytes_limit() {
        Some(b) => take_bytes(content, b as nat),
        None => take_lines(content, c.lines_limit() as nat),
    }
}

/// A source's open outcome as the contents it yielded, `None` when it
/// could not be opened.
pub open spec fn opt_content(o: Option<&Vec<u8>>) -> Option<Seq<u8>> {
    match o {
        Some(v) => Some(v@),
        None => None,
    }
}

/// What precedes an opened source's contents on standard output: a
/// separator when output was already emitted, and a banner when the run
/// has several sources.
pub open spec fn source_prefix(c: Config, name: Seq<char>, emitted: bool) -> Seq<u8> {
    let sep = if emitted {
        separator_bytes()
    } else {
        Seq::<u8>::empty()
    };
    let ban = if c.files_view().len() > 1 {
        banner_bytes(name)
    } else {
        Seq::<u8>::empty()
    };
    sep + ban
}

/// What one source contributes to standard output: nothing when it failed
/// to open; otherwise its prefix followed by the truncated contents.
pub open spec fn source_piece(
    c: Config,
    name: Seq<char>,
    outcome: Option<Seq<u8>>,
    emitted: bool,
) -> Seq<u8> {
    match outcome {
        None => Seq::empty(),
        Some(content) => source_prefix(c, name, emitted) + truncated(c, content),
    }
}

/// Standard output contributed by the sources from position `k` on, with
/// `emitted` saying whether any output was emitted before them.
pub open spec fn render_from(
    c: Config,
    outcomes: Seq<Option<Seq<u8>>>,
    k: int,
    emitted: bool,
) -> Seq<u8>
    recommends
        outcomes.len() == c.files_view().len(),
    decreases outcomes.len() - k,
{
    if k < 0 || k >= outcomes.len() {
        Seq::empty()
    } else {
        source_piece(c, c.files_view()[k], outcomes[k], emitted) + render_from(
            c,
            outcomes,
            k + 1,
            emitted || outcomes[k] is Some,
        )
    }
}

/// The whole run's standard output, given each source's open outcome.
pub open spec fn render_run(c: Config, outcomes: Seq<Option<Seq<u8>>>) -> Seq<u8>
    recommends
        outcomes.len() == c.files_view().len(),
{
    render_from(c, outcomes, 0, false)
}

/// The banner line for `name`.
pub fn banner(name: &str) -> (r: String)
    ensures
        r@ == banner_line(name@),
{
    String::from_str("==> ").concat(name).concat(" <==\n")
}

/// The diagnostic line for a source that could not be opened, as written
/// to standard error (without its terminator).
pub fn open_error_line(name: &str, err: &str) -> (r: String)
    ensures
        r@ == name@ + ": "@ + err@,
{
    String::from_str(name).concat(": ").concat(err)
}

/// Appends the encoded bytes of `s` to `out`.
fn push_str_bytes(out: &mut Vec<u8>, s: &str)
    ensures
        final(out)@ == old(out)@ + encode_utf8(s@),
{
    let mut bytes = s.as_bytes_vec();
    out.append(&mut bytes);
}

/// The cross-source state of a run: whether any standard output has been
/// emitted yet, which governs separator emission.
pub struct RunState {
    emitted: bool,
}

impl RunState {
    /// Whether any output has been emitted this run.
    pub closed spec fn emitted_any(&self) -> bool {
        self.emitted
    }

    /// A fresh run: nothing emitted yet.
    pub fn new() -> (s: RunState)
        ensures
            !s.emitted_any(),
    {
        RunState { emitted: false }
    }

    /// Emits what precedes an opened source's contents — the separator
    /// and banner it is owed — and records that output has been emitted.
    /// A caller that then echoes the source's contents itself (reading no
    /// further than the bound) writes exactly this source's piece.
    pub fn begin_source(&mut self, c: &Config, name: &str) -> (out: Vec<u8>)
        ensures
            out@ == source_prefix(*c, name@, old(self).emitted_any()),
            final(self).emitted_any(),
    {
        let ghost was = self.emitted;
        let mut out: Vec<u8> = Vec::new();
        if self.emitted {
            push_str_bytes(&mut out, "\n");
        }
        if c.files().len() > 1 {
            let ban_line = banner(name);
            push_str_bytes(&mut out, ban_line.as_str());
        }
        proof {
            assert(out@ =~= source_prefix(*c, name@, was));
        }
        self.emitted = true;
        out
    }

    /// Decides what one source contributes to standard output and
    /// advances the run state.  A failed open (`None`) contributes
    /// nothing and leaves the state unchanged.
    pub fn process(&mut self, c: &Config, name: &str, outcome: Option<&Vec<u8>>) -> (out: Vec<u8>)
        ensures
            out@ == source_piece(*c, name@, opt_content(outcome), old(self).emitted_any()),
            final(self).emitted_any() == (old(self).emitted_any() || outcome is Some),
    {
        match outcome {
            None => Vec::new(),
            Some(content) => {
                let mut out = self.begin_source(c, name);
                let mut tail = match c.bytes() {
                    Some(b) => head_bytes(content, b),
                    None => head_lines(content, c.lines()),
                };
                out.append(&mut tail);
                out
            },
        }
    }
}

/// Line-mode loop decision: a source that has already echoed
/// `emitted_lines` of its lines may echo another only while that count is
/// under `c`'s line bound.
pub fn more_lines_wanted(c: &Config, emitted_lines: usize) -> (b: bool)
    ensures
        b == (emitted_lines < c.lines_limit()),
{
    emitted_lines < c.lines()
}

/// Runs the configured truncation over every source's open outcome, in
/// order; the result is the run's whole standard output, exactly
/// `render_run`.
pub fn run(c: &Config, outcomes: &Vec<Option<Vec<u8>>>) -> (out: Vec<u8>)
    requires
        outcomes@.len() == c.files_view().len(),
    ensures
        out@ == render_run(*c, outcomes.deep_view()),
{
    let ghost ocs = outcomes.deep_view();
    let mut state = RunState::new();
    let mut out: Vec<u8> = Vec::new();
    let mut k: usize = 0;
    proof {
        assert(ocs.len() == outcomes@.len());
        assert(Seq::<u8>::empty() + render_from(*c, ocs, 0, false) =~= render_run(*c, ocs));
    }
    while k < outcomes.len()
        invariant
            ocs == outcomes.deep_view(),
            outcomes@.len() == c.files_view().len(),
            ocs.len() == outcomes@.len(),
            0 <= k <= outcomes@.len(),
            render_run(*c, ocs) == out@ + render_from(*c, ocs, k as int, state.emitted_any()),
        decreases outcomes@.len() - k,
    {
        proof {
            assert(ocs[k as int] == outcomes@[k as int].deep_view());
        }
        let files = c.files();
        proof {
            assert(files.deep_view()[k as int] == files@[k as int]@);
        }
        let name = &files[k];
        let oc: Option<&Vec<u8>> = match &outcomes[k] {
            Some(v) => Some(v),
            None => None,
        };
        assert(opt_content(oc) == ocs[k as int]);
        let mut piece = state.process(c, name.as_str(), oc);
        out.append(&mut piece);
        k = k + 1;
    }
    proof {
        assert(render_from(*c, ocs, k as int, state.emitted_any()) =~= Seq::<u8>::empty());
        assert(out@ + Seq::<u8>::empty() =~= out@);
    }
    out
}

/// Law: a single-source run prints no banner and no separator; its output
/// is exactly the truncated contents of its one source, or nothing when
/// that source failed to open.
pub proof fn lemma_single_source_no_banner(c: Config, outcomes: Seq<Option<Seq<u8>>>)
    requires
        c.files_view().len() == 1,
        outcomes.len() == 1,
    ensures
        render_run(c, outcomes) == match outcomes[0] {
            Some(content) => truncated(c, content),
            None => Seq::<u8>::empty(),
        },
{
    let p0 = source_piece(c, c.files_view()[0], outcomes[0], false);
    assert(render_from(c, outcomes, 1, outcomes[0] is Some) == Seq::<u8>::empty());
    assert(render_from(c, outcomes, 0, false) == p0 + render_from(
        c,
        outcomes,
        1,
        outcomes[0] is Some,
    ));
    match outcomes[0] {
        Some(content) => {
            assert(p0 =~= truncated(c, content));
            assert(p0 + Seq::<u8>::empty() =~= p0);
        },
        None => {
            assert(p0 + Seq::<u8>::empty() =~= Seq::<u8>::empty());
        },
    }
}

/// Law: with two openable sources the output is the first banner, the
/// first truncated contents, one blank separator line, the second banner,
/// and the second truncated contents, in that order.
pub proof fn lemma_two_sources_layout(c: Config, ca: Seq<u8>, cb: Seq<u8>)
    requires
        c.files_view().len() == 2,
    ensures
        render_run(c, seq![Some(ca), Some(cb)]) == banner_bytes(c.files_view()[0]) + truncated(
            c,
            ca,
        ) + separator_bytes() + banner_bytes(c.files_view()[1]) + truncated(c, cb),
{
    let fv = c.files_view();
    let ocs = seq![Some(ca), Some(cb)];
    assert(ocs.len() == 2 && ocs[0] == Some(ca) && ocs[1] == Some(cb));
    let p0 = source_piece(c, fv[0], Some(ca), false);
    let p1 = source_piece(c, fv[1], Some(cb), true);
    assert(render_from(c, ocs, 2, true) == Seq::<u8>::empty());
    assert(render_from(c, ocs, 1, true) == p1 + render_from(c, ocs, 2, true));
    assert(render_from(c, ocs, 0, false) == p0 + render_from(c, ocs, 1, true));
    assert(p0 =~= Seq::<u8>::empty() + banner_bytes(fv[0]) + truncated(c, ca));
    assert(render_run(c, ocs) =~= banner_bytes(fv[0]) + truncated(c, ca) + separator_bytes()
        + banner_bytes(fv[1]) + truncated(c, cb));
}

/// Law: a source that fails to open contributes no banner and earns no
/// separator credit; when the first of two sources fails, the output is
/// the second source's banner and truncated contents alone.
pub proof fn lemma_failed_source_skipped(c: Config, cb: Seq<u8>)
    requires
        c.files_view().len() == 2,
    ensures
        render_run(c, seq![None, Some(cb)]) == banner_bytes(c.files_view()[1]) + truncated(c, cb),
{
    let fv = c.files_view();
    let ocs = seq![None, Some(cb)];
    assert(ocs.len() == 2 && ocs[0] == None::<Seq<u8>> && ocs[1] == Some(cb));
    let p1 = source_piece(c, fv[1], Some(cb), false);
    assert(render_from(c, ocs, 2, true) == Seq::<u8>::empty());
    assert(render_from(c, ocs, 1, false) == p1 + render_from(c, ocs, 2, true));
    assert(render_from(c, ocs, 0, false) == Seq::<u8>::empty() + render_from(c, ocs, 1, false));
    assert(p1 =~= Seq::<u8>::empty() + banner_bytes(fv[1]) + truncated(c, cb));
    assert(render_run(c, ocs) =~= banner_bytes(fv[1]) + truncated(c, cb));
}

} // verus!
