use vstd::prelude::*;
use crate::fuzzy::{command_completion_options, ranked};
use crate::text::{has_sigil_prefix, names_contain, string_eq, starts_with_sigil, views_of};
use crate::tokenize::QueryLineArg;

verus! {

/// The pure, synchronous part of one parameter's capability set: whether
/// completions are offered even when the current value already validates
/// (used for parameters with many equally valid choices). The two
/// asynchronous capabilities — validate a value, complete a partial value —
/// stay with the collaborator; the resolver asks for them step by step.
#[derive(Debug, Clone)]
pub struct ParameterSpec {
    pub completion_valid: bool,
}

/// One registered command: its name and its declared parameters, in order.
#[derive(Debug, Clone)]
pub struct CommandDescriptor {
    pub name: String,
    pub params: Vec<ParameterSpec>,
}

/// A per-request, read-only snapshot of the command registry: the commands
/// in declaration order, with pairwise distinct names.
#[derive(Debug, Clone)]
pub struct CommandRegistry {
    pub commands: Vec<CommandDescriptor>,
}

/// Whether some registered command has exactly this name.
pub open spec fn has_command(reg: CommandRegistry, name: Seq<char>) -> bool {
    exists|i: int|
        0 <= i < reg.commands@.len() && (#[trigger] reg.commands@[i]).name@ == name
}

/// The position of the command with this name.
pub open spec fn command_index(reg: CommandRegistry, name: Seq<char>) -> int {
    choose|i: int| 0 <= i < reg.commands@.len() && (#[trigger] reg.commands@[i]).name@ == name
}

/// The completion_valid flags of a parameter list, in order.
pub open spec fn flags_of(params: Seq<ParameterSpec>) -> Seq<bool> {
    params.map_values(|p: ParameterSpec| p.completion_valid)
}

impl CommandRegistry {
    /// The registered names, in declaration order.
    pub open spec fn names(self) -> Seq<Seq<char>> {
        self.commands@.map_values(|c: CommandDescriptor| c.name@)
    }

    /// Registered names never repeat.
    pub open spec fn wf(self) -> bool {
        forall|i: int, j: int|
            0 <= i < j < self.commands@.len() ==> (#[trigger] self.commands@[i].name@)
                != (#[trigger] self.commands@[j].name@)
    }

    /// The registered names as strings, for the argument extractor and the
    /// fuzzy ranker.
    pub fn command_names(&self) -> (r: Vec<String>)
        ensures
            views_of(r@) == self.names(),
    {
        let mut r: Vec<String> = Vec::new();
        let n = self.commands.len();
        for i in 0..n
            invariant
                n == self.commands@.len(),
                r@.len() == i,
                forall|k: int| 0 <= k < i ==> (#[trigger] r@[k])@ == self.commands@[k].name@,
        {
            r.push(self.commands[i].name.clone());
        }
        proof {
            assert(views_of(r@) =~= self.names());
        }
        r
    }

    /// Exact-match lookup of a command name.
    fn find(&self, name: &String) -> (r: Option<usize>)
        requires
            self.wf(),
        ensures
            r is Some <==> has_command(*self, name@),
            r matches Some(i) ==> i as int == command_index(*self, name@) && i
                < self.commands@.len() && self.commands@[i as int].name@ == name@,
    {
        let n = self.commands.len();
        for i in 0..n
            invariant
                n == self.commands@.len(),
                self.wf(),
                forall|j: int| 0 <= j < i ==> (#[trigger] self.commands@[j]).name@ != name@,
        {
            if string_eq(&self.commands[i].name, name) {
                proof {
                    assert(has_command(*self, name@));
                    let j = command_index(*self, name@);
                    assert(0 <= j < self.commands@.len() && self.commands@[j].name@ == name@);
                    assert(j == i as int);
                }
                return Some(i);
            }
        }
        proof {
            assert(!has_command(*self, name@));
        }
        None
    }
}

/// The outcome of one completion request: the suggestions, whether the line
/// is ready to execute as it stands, and the character range a chosen
/// suggestion replaces — `(-1, -1)` when no replacement applies.
#[derive(Debug, Clone)]
pub struct CompletionResult {
    pub completions: Vec<String>,
    pub is_cmd_executable: bool,
    pub pos1: i64,
    pub pos2: i64,
}

/// The result that offers nothing: no suggestions, not executable, no
/// replacement range. Not an error — the dominant case mid-sentence.
pub open spec fn is_empty_result(r: CompletionResult) -> bool {
    &&& r.completions@.len() == 0
    &&& !r.is_cmd_executable
    &&& r.pos1 == -1
    &&& r.pos2 == -1
}

fn empty_result() -> (r: CompletionResult)
    ensures
        is_empty_result(r),
{
    CompletionResult { completions: Vec::new(), is_cmd_executable: false, pos1: -1, pos2: -1 }
}

/// The data-model invariant of a finished result: one that is ready to
/// execute offers nothing — no suggestions, and no range to replace.
pub open spec fn executable_offers_nothing(r: CompletionResult) -> bool {
    r.is_cmd_executable ==> (r.completions@.len() == 0 && r.pos1 == -1 && r.pos2 == -1)
}

/// The resolver's state between two validation calls: the argument tokens
/// bound to the command (already truncated to its parameter count), every
/// parameter's completion_valid flag, the pair the walk stands at, and what
/// the final verdicts need.
#[derive(Debug)]
pub struct ValidationFrame {
    pub args: Vec<QueryLineArg>,
    pub flags: Vec<bool>,
    pub index: usize,
    pub can_execute: bool,
    pub cmd_focused: bool,
    pub cursor: i64,
}

impl ValidationFrame {
    pub open spec fn wf(self) -> bool {
        &&& self.index < self.args@.len()
        &&& self.args@.len() <= self.flags@.len()
        &&& (self.can_execute <==> self.args@.len() == self.flags@.len())
    }
}

/// What the resolver asks of one parameter's completion capability; the
/// collaborator's answer becomes the final result through
/// `apply_completions`. A result built from suggestions is never executable:
/// something on the line still wants typing or correcting.
#[derive(Debug)]
pub struct CompletionRequest {
    pub param_index: usize,
    pub partial: String,
    pub pos1: i64,
    pub pos2: i64,
}

/// One step of the resolution state machine. The driver performs the asked
/// collaborator call — strictly one at a time, in declared parameter order —
/// and hands the answer back; `Done` ends the request.
#[derive(Debug)]
pub enum ResolverStep {
    Done(CompletionResult),
    NeedValidation(ValidationFrame),
    NeedCompletion(CompletionRequest),
}

/// The index of the first token whose text begins with the command sigil,
/// or the token count when there is none.
pub open spec fn sigil_index(args: Seq<QueryLineArg>) -> int
    decreases args.len(),
{
    if args.len() == 0 {
        0
    } else if has_sigil_prefix(args[0].value@) {
        0
    } else {
        1 + sigil_index(args.skip(1))
    }
}

proof fn lemma_sigil_index_from_props(args: Seq<QueryLineArg>, k: int)
    requires
        0 <= k <= args.len(),
        forall|j: int| 0 <= j < k ==> !has_sigil_prefix((#[trigger] args[j]).value@),
        k < args.len() ==> has_sigil_prefix(args[k].value@),
    ensures
        sigil_index(args) == k,
    decreases args.len(),
{
    if args.len() == 0 {
    } else if has_sigil_prefix(args[0].value@) {
        assert(k == 0);
    } else {
        assert(k > 0);
        lemma_sigil_index_from_props(args.skip(1), k - 1);
    }
}

/// What the opening step of the resolution yields, by the case of the input:
/// no sigil token — the empty result; a sigil token that matches no command —
/// ranked command-name suggestions when it is under the cursor, the empty
/// result when not; a matching command — either the walk over its
/// (argument, parameter) pairs begins, or, with no arguments yet, the verdict
/// that needs no collaborator.
pub open spec fn begin_post(
    args: Seq<QueryLineArg>,
    reg: CommandRegistry,
    cursor: i64,
    r: ResolverStep,
) -> bool {
    let k = sigil_index(args);
    if k == args.len() {
        r matches ResolverStep::Done(res) && is_empty_result(res)
    } else {
        let tok = args[k];
        if !has_command(reg, tok.value@) {
            if tok.focused {
                r matches ResolverStep::Done(res) && {
                    &&& views_of(res.completions@) == ranked(reg.names(), tok.value@)
                    &&& !res.is_cmd_executable
                    &&& res.pos1 == tok.pos1
                    &&& res.pos2 == tok.pos2
                }
            } else {
                r matches ResolverStep::Done(res) && is_empty_result(res)
            }
        } else {
            let ci = command_index(reg, tok.value@);
            let pc = reg.commands@[ci].params@.len() as int;
            let raw = args.skip(k + 1);
            let t = vstd::math::min(raw.len() as int, pc);
            let ce = (t == pc);
            if t == 0 {
                if ce {
                    r matches ResolverStep::Done(res) && {
                        &&& res.completions@.len() == 0
                        &&& res.is_cmd_executable
                        &&& res.pos1 == -1
                        &&& res.pos2 == -1
                    }
                } else if !tok.focused {
                    r matches ResolverStep::NeedCompletion(cq) && {
                        &&& cq.param_index == 0
                        &&& cq.partial@.len() == 0
                        &&& cq.pos1 == cursor
                        &&& cq.pos2 == cursor
                    }
                } else {
                    r matches ResolverStep::Done(res) && is_empty_result(res)
                }
            } else {
                r matches ResolverStep::NeedValidation(f) && {
                    &&& f.args@ == raw.take(t)
                    &&& f.flags@ == flags_of(reg.commands@[ci].params@)
                    &&& f.index == 0
                    &&& f.can_execute == ce
                    &&& f.cmd_focused == tok.focused
                    &&& f.cursor == cursor
                    &&& f.wf()
                }
            }
        }
    }
}

/// Opens the resolution of one token list against the registry: locates the
/// sigil token, matches it, binds and truncates the trailing arguments, and
/// either finishes or asks for the first validation.
pub fn resolve_begin(args: Vec<QueryLineArg>, registry: &CommandRegistry, cursor_abs: i64) -> (r:
    ResolverStep)
    requires
        registry.wf(),
    ensures
        begin_post(args@, *registry, cursor_abs, r),
        r matches ResolverStep::Done(res) ==> executable_offers_nothing(res),
{
    let n = args.len();
    let mut k: usize = 0;
    loop
        invariant
            k <= n,
            n == args@.len(),
            forall|j: int| 0 <= j < k ==> !has_sigil_prefix((#[trigger] args@[j]).value@),
        ensures
            k <= args@.len(),
            forall|j: int| 0 <= j < k ==> !has_sigil_prefix((#[trigger] args@[j]).value@),
            k < args@.len() ==> has_sigil_prefix(args@[k as int].value@),
        decreases n - k,
    {
        if k == n {
            break ;
        }
        if starts_with_sigil(&args[k].value) {
            break ;
        }
        k = k + 1;
    }
    proof {
        lemma_sigil_index_from_props(args@, k as int);
    }
    if k == n {
        return ResolverStep::Done(empty_result());
    }
    let focused = args[k].focused;
    let pos1 = args[k].pos1;
    let pos2 = args[k].pos2;
    match registry.find(&args[k].value) {
        None => {
            if focused {
                let names = registry.command_names();
                let completions = command_completion_options(&names, &args[k].value);
                ResolverStep::Done(
                    CompletionResult { completions, is_cmd_executable: false, pos1, pos2 },
                )
            } else {
                ResolverStep::Done(empty_result())
            }
        },
        Some(ci) => {
            let ghost a0 = args@;
            let pc = registry.commands[ci].params.len();
            let mut rest = args;
            let mut targs = rest.split_off(k + 1);
            proof {
                assert(targs@ == a0.skip(k + 1));
            }
            targs.truncate(pc);
            proof {
                assert(targs@ =~= a0.skip(k as int + 1).take(
                    vstd::math::min(a0.skip(k as int + 1).len() as int, pc as int),
                ));
            }
            let can_execute = targs.len() == pc;
            let mut flags: Vec<bool> = Vec::new();
            let np = registry.commands[ci].params.len();
            for idx in 0..np
                invariant
                    np == registry.commands@[ci as int].params@.len(),
                    ci < registry.commands@.len(),
                    flags@.len() == idx,
                    forall|m: int|
                        0 <= m < idx ==> flags@[m] == registry.commands@[ci as int].params@[m].completion_valid,
            {
                flags.push(registry.commands[ci].params[idx].completion_valid);
            }
            proof {
                assert(flags@ =~= flags_of(registry.commands@[ci as int].params@));
            }
            if targs.len() == 0 {
                if can_execute {
                    ResolverStep::Done(
                        CompletionResult {
                            completions: Vec::new(),
                            is_cmd_executable: true,
                            pos1: -1,
                            pos2: -1,
                        },
                    )
                } else if !focused {
                    ResolverStep::NeedCompletion(
                        CompletionRequest {
                            param_index: 0,
                            partial: String::new(),
                            pos1: cursor_abs,
                            pos2: cursor_abs,
                        },
                    )
                } else {
                    ResolverStep::Done(empty_result())
                }
            } else {
                ResolverStep::NeedValidation(
                    ValidationFrame {
                        args: targs,
                        flags,
                        index: 0,
                        can_execute,
                        cmd_focused: focused,
                        cursor: cursor_abs,
                    },
                )
            }
        },
    }
}

/// What one validation verdict yields. An invalid value under the cursor
/// asks for that parameter's completions; an invalid value elsewhere ends
/// everything with the empty result — later pairs are never reached. A valid
/// value under the cursor asks for completions when the parameter offers
/// them even so; otherwise the walk moves to the next pair, and past the
/// last pair the verdict falls: executable when every declared parameter got
/// an argument, else — with the command token not under the cursor — a
/// zero-width suggestion request for the first unfilled parameter, else
/// nothing.
pub open spec fn step_post(frame: ValidationFrame, is_valid: bool, r: ResolverStep) -> bool {
    let a = frame.args@[frame.index as int];
    let flag = frame.flags@[frame.index as int];
    if !is_valid && a.focused {
        r matches ResolverStep::NeedCompletion(cq) && {
            &&& cq.param_index == frame.index
            &&& cq.partial@ == a.value@
            &&& cq.pos1 == a.pos1
            &&& cq.pos2 == a.pos2
        }
    } else if !is_valid {
        r matches ResolverStep::Done(res) && is_empty_result(res)
    } else if a.focused && flag {
        r matches ResolverStep::NeedCompletion(cq) && {
            &&& cq.param_index == frame.index
            &&& cq.partial@ == a.value@
            &&& cq.pos1 == a.pos1
            &&& cq.pos2 == a.pos2
        }
    } else if frame.index + 1 < frame.args@.len() {
        r matches ResolverStep::NeedValidation(f2) && {
            &&& f2.args == frame.args
            &&& f2.flags == frame.flags
            &&& f2.index == frame.index + 1
            &&& f2.can_execute == frame.can_execute
            &&& f2.cmd_focused == frame.cmd_focused
            &&& f2.cursor == frame.cursor
            &&& f2.wf()
        }
    } else if frame.can_execute {
        r matches ResolverStep::Done(res) && {
            &&& res.completions@.len() == 0
            &&& res.is_cmd_executable
            &&& res.pos1 == -1
            &&& res.pos2 == -1
        }
    } else if !frame.cmd_focused {
        r matches ResolverStep::NeedCompletion(cq) && {
            &&& cq.param_index == frame.args@.len()
            &&& cq.partial@.len() == 0
            &&& cq.pos1 == frame.cursor
            &&& cq.pos2 == frame.cursor
        }
    } else {
        r matches ResolverStep::Done(res) && is_empty_result(res)
    }
}

/// Feeds one validation verdict for the pair the frame stands at into the
/// resolution, and yields the next step.
pub fn resolve_on_validation(frame: ValidationFrame, is_valid: bool) -> (r: ResolverStep)
    requires
        frame.wf(),
    ensures
        step_post(frame, is_valid, r),
        r matches ResolverStep::Done(res) ==> executable_offers_nothing(res),
{
    let n = frame.args.len();
    let focused = frame.args[frame.index].focused;
    let flag = frame.flags[frame.index];
    if !is_valid && focused {
        let partial = frame.args[frame.index].value.clone();
        ResolverStep::NeedCompletion(
            CompletionRequest {
                param_index: frame.index,
                partial,
                pos1: frame.args[frame.index].pos1,
                pos2: frame.args[frame.index].pos2,
            },
        )
    } else if !is_valid {
        ResolverStep::Done(empty_result())
    } else if focused && flag {
        let partial = frame.args[frame.index].value.clone();
        ResolverStep::NeedCompletion(
            CompletionRequest {
                param_index: frame.index,
                partial,
                pos1: frame.args[frame.index].pos1,
                pos2: frame.args[frame.index].pos2,
            },
        )
    } else if frame.index + 1 < n {
        ResolverStep::NeedValidation(
            ValidationFrame {
                args: frame.args,
                flags: frame.flags,
                index: frame.index + 1,
                can_execute: frame.can_execute,
                cmd_focused: frame.cmd_focused,
                cursor: frame.cursor,
            },
        )
    } else if frame.can_execute {
        ResolverStep::Done(
            CompletionResult {
                completions: Vec::new(),
                is_cmd_executable: true,
                pos1: -1,
                pos2: -1,
            },
        )
    } else if !frame.cmd_focused {
        ResolverStep::NeedCompletion(
            CompletionRequest {
                param_index: n,
                partial: String::new(),
                pos1: frame.cursor,
                pos2: frame.cursor,
            },
        )
    } else {
        ResolverStep::Done(empty_result())
    }
}

/// Wraps a parameter capability's suggestions into the final result, with
/// the replacement range the resolver fixed when it asked for them. A result
/// built this way is never executable: suggestions mean the line still wants
/// typing or correcting.
pub fn apply_completions(request: CompletionRequest, suggestions: Vec<String>) -> (r:
    CompletionResult)
    ensures
        r.completions == suggestions,
        !r.is_cmd_executable,
        r.pos1 == request.pos1,
        r.pos2 == request.pos2,
        executable_offers_nothing(r),
{
    CompletionResult {
        completions: suggestions,
        is_cmd_executable: false,
        pos1: request.pos1,
        pos2: request.pos2,
    }
}

/// Fail-fast: an invalid argument whose token is not under the cursor ends
/// the whole resolution with the empty, non-executable result — whatever the
/// later arguments hold. The machine is `Done`, so no later parameter's
/// validation or completion capability is ever asked for.
pub proof fn lemma_fail_fast_aborts(frame: ValidationFrame, r: ResolverStep)
    requires
        frame.wf(),
        !frame.args@[frame.index as int].focused,
        step_post(frame, false, r),
    ensures
        r matches ResolverStep::Done(res) && is_empty_result(res),
{
}

/// The suggestions with duplicates dropped: of equal suggestions only the
/// first stays, and the order is otherwise kept.
pub open spec fn dedup_first(s: Seq<Seq<char>>) -> Seq<Seq<char>>
    decreases s.len(),
{
    if s.len() == 0 {
        Seq::empty()
    } else {
        let rest = dedup_first(s.drop_last());
        if rest.contains(s.last()) {
            rest
        } else {
            rest.push(s.last())
        }
    }
}

/// Each suggestion with the trailing separator the caller owes appended.
pub open spec fn with_separator(s: Seq<Seq<char>>) -> Seq<Seq<char>> {
    s.map_values(|t: Seq<char>| t.push(' '))
}

/// Shapes the resolved suggestions for the response: duplicates dropped
/// (first occurrence kept), then one trailing space appended to each, so
/// that accepting a suggestion leaves the cursor ready for the next word.
pub fn finalize_completions(completions: Vec<String>) -> (r: Vec<String>)
    ensures
        views_of(r@) == with_separator(dedup_first(views_of(completions@))),
{
    let ghost all = views_of(completions@);
    let mut uniq: Vec<String> = Vec::new();
    let mut remaining = completions;
    proof {
        assert(all.take(0) =~= Seq::<Seq<char>>::empty());
        assert(views_of(uniq@) =~= dedup_first(all.take(0)));
        assert(views_of(remaining@) =~= all.skip(0));
    }
    loop
        invariant
            remaining@.len() <= all.len(),
            views_of(remaining@) == all.skip(all.len() - remaining@.len()),
            views_of(uniq@) == dedup_first(all.take(all.len() - remaining@.len())),
        ensures
            remaining@.len() == 0,
            views_of(uniq@) == dedup_first(all),
        decreases remaining@.len(),
    {
        if remaining.len() == 0 {
            proof {
                assert(all.take(all.len() as int) =~= all);
            }
            break ;
        }
        let ghost p = all.len() - remaining@.len();
        let ghost old_rem = remaining@;
        let x = remaining.remove(0);
        proof {
            assert(views_of(old_rem)[0] == x@);
            assert(views_of(old_rem) == all.skip(p));
            assert(all.skip(p)[0] == all[p]);
            assert(remaining@ =~= old_rem.skip(1));
            assert(views_of(remaining@) =~= views_of(old_rem).skip(1));
            assert(views_of(remaining@) =~= all.skip(p + 1));
            assert(all.take(p + 1).drop_last() =~= all.take(p));
            assert(all.take(p + 1).last() == all[p]);
        }
        let ghost old_uniq = uniq@;
        if !names_contain(&uniq, &x) {
            uniq.push(x);
            proof {
                assert(views_of(uniq@) =~= views_of(old_uniq).push(all[p]));
            }
        }
    }
    let ghost deduped = dedup_first(all);
    let mut out: Vec<String> = Vec::new();
    loop
        invariant
            out@.len() + uniq@.len() == deduped.len(),
            views_of(uniq@) == deduped.skip(out@.len() as int),
            forall|j: int| 0 <= j < out@.len() ==> (#[trigger] out@[j])@ == deduped[j].push(' '),
        ensures
            out@.len() == deduped.len(),
            forall|j: int| 0 <= j < out@.len() ==> (#[trigger] out@[j])@ == deduped[j].push(' '),
        decreases uniq@.len(),
    {
        if uniq.len() == 0 {
            break ;
        }
        let ghost old_uniq = uniq@;
        let ghost k = out@.len() as int;
        let x = uniq.remove(0);
        proof {
            assert(views_of(old_uniq)[0] == x@);
            assert(views_of(old_uniq) == deduped.skip(k));
            assert(deduped.skip(k)[0] == deduped[k]);
            assert(uniq@ =~= old_uniq.skip(1));
            assert(views_of(uniq@) =~= views_of(old_uniq).skip(1));
            assert(views_of(uniq@) =~= deduped.skip(k + 1));
        }
        let with_space = x.concat(" ");
        proof {
            reveal_strlit(" ");
            assert(with_space@ =~= deduped[k].push(' '));
        }
        out.push(with_space);
    }
    proof {
        assert(views_of(out@) =~= with_separator(deduped));
    }
    out
}

} // verus!
