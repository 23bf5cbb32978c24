//! The line processor: renders the lines of each input in order under
//! the configured numbering policy, with the counter starting afresh for
//! every file, and isolates open failures per input.

use crate::config::Config;
use crate::render::{counter_after, line_output, render_one_line, Policy};
use vstd::prelude::*;

verus! {

/// What a file's lines render to, the counter starting at `counter`:
/// each line's output in order, the counter threaded through.
pub open spec fn render_from(policy: Policy, counter: nat, lines: Seq<Seq<char>>) -> Seq<
    Seq<char>,
>
    decreases lines.len(),
{
    if lines.len() == 0 {
        Seq::empty()
    } else {
        seq![line_output(policy, counter, lines[0])] + render_from(
            policy,
            counter_after(policy, counter, lines[0]),
            lines.drop_first(),
        )
    }
}

/// The counter value after rendering `lines` from `counter`: `counter`
/// plus the number of lines that consume a counter value.
pub open spec fn counter_through(policy: Policy, counter: nat, lines: Seq<Seq<char>>) -> nat
    decreases lines.len(),
{
    if lines.len() == 0 {
        counter
    } else {
        counter_through(policy, counter_after(policy, counter, lines[0]), lines.drop_first())
    }
}

/// What one file's lines render to: the counter starts at zero for each
/// file, so numbering never carries across files.
pub open spec fn render_file(policy: Policy, lines: Seq<Seq<char>>) -> Seq<Seq<char>> {
    render_from(policy, 0, lines)
}

/// What a list of files renders to: each file rendered with a fresh
/// counter, the outputs concatenated in the order given.
pub open spec fn render_files(policy: Policy, files: Seq<Seq<Seq<char>>>) -> Seq<Seq<char>>
    decreases files.len(),
{
    if files.len() == 0 {
        Seq::empty()
    } else {
        render_file(policy, files[0]) + render_files(policy, files.drop_first())
    }
}

/// Rendering one more line at the end appends that line's output, taken
/// at the counter value the earlier lines reached, and advances the
/// counter by whether the new line consumes a value.
pub proof fn lemma_render_from_snoc(
    policy: Policy,
    counter: nat,
    lines: Seq<Seq<char>>,
    l: Seq<char>,
)
    ensures
        render_from(policy, counter, lines.push(l)) == render_from(policy, counter, lines).push(
            line_output(policy, counter_through(policy, counter, lines), l),
        ),
        counter_through(policy, counter, lines.push(l)) == counter_after(
            policy,
            counter_through(policy, counter, lines),
            l,
        ),
    decreases lines.len(),
{
    reveal_with_fuel(render_from, 3);
    reveal_with_fuel(counter_through, 3);
    if lines.len() == 0 {
        assert(lines.push(l)[0] == l);
        assert(lines.push(l).drop_first() =~= Seq::<Seq<char>>::empty());
        assert(render_from(policy, counter, lines.push(l)) =~= render_from(
            policy,
            counter,
            lines,
        ).push(line_output(policy, counter_through(policy, counter, lines), l)));
    } else {
        let c1 = counter_after(policy, counter, lines[0]);
        assert(lines.push(l)[0] == lines[0]);
        assert(lines.push(l).drop_first() =~= lines.drop_first().push(l));
        lemma_render_from_snoc(policy, c1, lines.drop_first(), l);
        assert(render_from(policy, counter, lines.push(l)) == seq![
            line_output(policy, counter, lines[0]),
        ] + render_from(policy, c1, lines.drop_first().push(l)));
        assert(counter_through(policy, counter, lines.push(l)) == counter_through(
            policy,
            c1,
            lines.drop_first().push(l),
        ));
        assert(render_from(policy, counter, lines.push(l)) =~= render_from(
            policy,
            counter,
            lines,
        ).push(line_output(policy, counter_through(policy, counter, lines), l)));
    }
}

/// Rendering one more file at the end appends that file's rendering.
pub proof fn lemma_render_files_snoc(policy: Policy, files: Seq<Seq<Seq<char>>>, f: Seq<Seq<char>>)
    ensures
        render_files(policy, files.push(f)) == render_files(policy, files) + render_file(
            policy,
            f,
        ),
    decreases files.len(),
{
    reveal_with_fuel(render_files, 3);
    if files.len() == 0 {
        assert(files.push(f)[0] == f);
        assert(files.push(f).drop_first() =~= Seq::<Seq<Seq<char>>>::empty());
        assert(render_files(policy, files.push(f)) =~= render_files(policy, files) + render_file(
            policy,
            f,
        ));
    } else {
        assert(files.push(f)[0] == files[0]);
        assert(files.push(f).drop_first() =~= files.drop_first().push(f));
        lemma_render_files_snoc(policy, files.drop_first(), f);
        assert(render_files(policy, files.push(f)) == render_file(policy, files[0])
            + render_files(policy, files.drop_first().push(f)));
        assert(render_files(policy, files.push(f)) =~= render_files(policy, files) + render_file(
            policy,
            f,
        ));
    }
}

/// Renders the lines of one file under `policy`, the counter starting at
/// zero: the output holds one rendered line per input line, in order.
pub fn process_lines(policy: Policy, lines: &Vec<String>) -> (out: Vec<String>)
    ensures
        out.deep_view() == render_file(policy, lines.deep_view()),
{
    let mut out: Vec<String> = Vec::new();
    let mut counter: usize = 0;
    let mut i: usize = 0;
    while i < lines.len()
        invariant
            i <= lines@.len(),
            counter <= i,
            counter as nat == counter_through(policy, 0, lines.deep_view().take(i as int)),
            out.deep_view() == render_from(policy, 0, lines.deep_view().take(i as int)),
        decreases lines@.len() - i,
    {
        let ghost prev: Seq<Seq<char>> = lines.deep_view().take(i as int);
        let (line_out, next_counter) = render_one_line(policy, counter, lines[i].as_str());
        out.push(line_out);
        counter = next_counter;
        i += 1;
        proof {
            lemma_render_from_snoc(policy, 0, prev, lines.deep_view()[i - 1]);
            assert(lines.deep_view().take(i as int) =~= prev.push(lines.deep_view()[i - 1]));
            assert(out.deep_view() =~= render_from(policy, 0, lines.deep_view().take(i as int)));
        }
    }
    proof {
        assert(lines.deep_view().take(lines@.len() as int) =~= lines.deep_view());
    }
    out
}

/// Renders a list of files under `policy`, each with a fresh counter,
/// and concatenates the outputs in order.
pub fn process_files(policy: Policy, files: &Vec<Vec<String>>) -> (out: Vec<String>)
    ensures
        out.deep_view() == render_files(policy, files.deep_view()),
{
    let mut out: Vec<String> = Vec::new();
    let mut i: usize = 0;
    while i < files.len()
        invariant
            i <= files@.len(),
            out.deep_view() == render_files(policy, files.deep_view().take(i as int)),
        decreases files@.len() - i,
    {
        let ghost prev: Seq<Seq<Seq<char>>> = files.deep_view().take(i as int);
        let ghost out_before: Seq<Seq<char>> = out.deep_view();
        let mut rendered = process_lines(policy, &files[i]);
        let ghost rendered_view: Seq<Seq<char>> = rendered.deep_view();
        out.append(&mut rendered);
        i += 1;
        proof {
            lemma_render_files_snoc(policy, prev, files.deep_view()[i - 1]);
            assert(files.deep_view().take(i as int) =~= prev.push(files.deep_view()[i - 1]));
            assert(out.deep_view() =~= out_before + rendered_view);
            assert(out.deep_view() =~= render_files(policy, files.deep_view().take(i as int)));
        }
    }
    proof {
        assert(files.deep_view().take(files@.len() as int) =~= files.deep_view());
    }
    out
}

/// The diagnostic written to the error stream when an input cannot be
/// opened, naming the file and the underlying cause.
pub open spec fn diagnostic_view(name: Seq<char>, cause: Seq<char>) -> Seq<char> {
    "Failed to open "@ + name + ": "@ + cause
}

/// Builds the open-failure diagnostic for one filename and cause.
pub fn diagnostic(name: &str, cause: &str) -> (r: String)
    ensures
        r@ == diagnostic_view(name@, cause@),
{
    let mut s = String::from_str("Failed to open ");
    s.append(name);
    s.append(": ");
    s.append(cause);
    s
}

/// One input after the attempt to open it: the lines it yielded when it
/// opened, or the cause of the failure when it did not.
pub enum SourceOutcome {
    /// The input opened and yielded these lines.
    Opened(Vec<String>),
    /// The input could not be opened, for this cause.
    OpenFailed(String),
}

/// Everything a run emits: lines for standard output and diagnostics for
/// the error stream, each in emission order.
pub struct RunOutput {
    /// The rendered lines, for standard output.
    pub lines: Vec<String>,
    /// One open-failure diagnostic per unopenable input, for the error
    /// stream.
    pub diagnostics: Vec<String>,
}

/// What one input contributes to standard output: its rendered lines
/// when it opened, nothing when it did not.
pub open spec fn output_of_source(policy: Policy, input: SourceOutcome) -> Seq<Seq<char>> {
    match input {
        SourceOutcome::Opened(ls) => render_file(policy, ls.deep_view()),
        SourceOutcome::OpenFailed(_) => Seq::empty(),
    }
}

/// What one input contributes to the error stream: one diagnostic when
/// it failed to open, nothing when it opened.
pub open spec fn diagnostics_of_source(name: Seq<char>, input: SourceOutcome) -> Seq<Seq<char>> {
    match input {
        SourceOutcome::Opened(_) => Seq::empty(),
        SourceOutcome::OpenFailed(cause) => seq![diagnostic_view(name, cause@)],
    }
}

/// What a run writes to standard output: each input's contribution, in
/// the order the inputs were given.
pub open spec fn outputs_of(policy: Policy, inputs: Seq<SourceOutcome>) -> Seq<Seq<char>>
    decreases inputs.len(),
{
    if inputs.len() == 0 {
        Seq::empty()
    } else {
        output_of_source(policy, inputs[0]) + outputs_of(policy, inputs.drop_first())
    }
}

/// What a run writes to the error stream: one diagnostic per unopenable
/// input, in the order the inputs were given. `names` and `inputs` walk
/// together, index by index.
pub open spec fn diagnostics_of(names: Seq<Seq<char>>, inputs: Seq<SourceOutcome>) -> Seq<
    Seq<char>,
>
    decreases inputs.len(),
{
    if inputs.len() == 0 {
        Seq::empty()
    } else {
        diagnostics_of_source(names[0], inputs[0]) + diagnostics_of(
            names.drop_first(),
            inputs.drop_first(),
        )
    }
}

/// Appending one more input appends its contribution to the output.
pub proof fn lemma_outputs_of_snoc(policy: Policy, inputs: Seq<SourceOutcome>, x: SourceOutcome)
    ensures
        outputs_of(policy, inputs.push(x)) == outputs_of(policy, inputs) + output_of_source(
            policy,
            x,
        ),
    decreases inputs.len(),
{
    reveal_with_fuel(outputs_of, 3);
    if inputs.len() == 0 {
        assert(inputs.push(x)[0] == x);
        assert(inputs.push(x).drop_first() =~= Seq::<SourceOutcome>::empty());
        assert(outputs_of(policy, inputs.push(x)) =~= outputs_of(policy, inputs)
            + output_of_source(policy, x));
    } else {
        assert(inputs.push(x)[0] == inputs[0]);
        assert(inputs.push(x).drop_first() =~= inputs.drop_first().push(x));
        lemma_outputs_of_snoc(policy, inputs.drop_first(), x);
        assert(outputs_of(policy, inputs.push(x)) == output_of_source(policy, inputs[0])
            + outputs_of(policy, inputs.drop_first().push(x)));
        assert(outputs_of(policy, inputs.push(x)) =~= outputs_of(policy, inputs)
            + output_of_source(policy, x));
    }
}

/// Appending one more input and its name appends its contribution to the
/// error stream.
pub proof fn lemma_diagnostics_of_snoc(
    names: Seq<Seq<char>>,
    inputs: Seq<SourceOutcome>,
    name: Seq<char>,
    x: SourceOutcome,
)
    requires
        names.len() == inputs.len(),
    ensures
        diagnostics_of(names.push(name), inputs.push(x)) == diagnostics_of(names, inputs)
            + diagnostics_of_source(name, x),
    decreases inputs.len(),
{
    reveal_with_fuel(diagnostics_of, 3);
    if inputs.len() == 0 {
        assert(inputs.push(x)[0] == x);
        assert(names.push(name)[0] == name);
        assert(inputs.push(x).drop_first() =~= Seq::<SourceOutcome>::empty());
        assert(names.push(name).drop_first() =~= Seq::<Seq<char>>::empty());
        assert(diagnostics_of(names.push(name), inputs.push(x)) =~= diagnostics_of(names, inputs)
            + diagnostics_of_source(name, x));
    } else {
        assert(inputs.push(x)[0] == inputs[0]);
        assert(names.push(name)[0] == names[0]);
        assert(inputs.push(x).drop_first() =~= inputs.drop_first().push(x));
        assert(names.push(name).drop_first() =~= names.drop_first().push(name));
        lemma_diagnostics_of_snoc(names.drop_first(), inputs.drop_first(), name, x);
        assert(diagnostics_of(names.push(name), inputs.push(x)) == diagnostics_of_source(
            names[0],
            inputs[0],
        ) + diagnostics_of(names.drop_first().push(name), inputs.drop_first().push(x)));
        assert(diagnostics_of(names.push(name), inputs.push(x)) =~= diagnostics_of(names, inputs)
            + diagnostics_of_source(name, x));
    }
}

/// Runs the processor on inputs that have already been resolved: for
/// each filename, in order, either the rendered lines of the opened
/// source (the counter fresh per file) or one diagnostic naming the file
/// and the cause. An input that failed to open contributes no output
/// lines and does not stop the run.
pub fn run_on_inputs(config: &Config, inputs: &Vec<SourceOutcome>) -> (r: RunOutput)
    requires
        inputs@.len() == config.spec_files().len(),
    ensures
        r.lines.deep_view() == outputs_of(config.spec_policy(), inputs@),
        r.diagnostics.deep_view() == diagnostics_of(config.spec_files(), inputs@),
{
    let policy = config.policy();
    let names = config.files();
    let mut out_lines: Vec<String> = Vec::new();
    let mut diags: Vec<String> = Vec::new();
    let mut i: usize = 0;
    while i < inputs.len()
        invariant
            i <= inputs@.len(),
            names.deep_view() == config.spec_files(),
            inputs@.len() == names@.len(),
            policy == config.spec_policy(),
            out_lines.deep_view() == outputs_of(policy, inputs@.take(i as int)),
            diags.deep_view() == diagnostics_of(
                names.deep_view().take(i as int),
                inputs@.take(i as int),
            ),
        decreases inputs@.len() - i,
    {
        let ghost prev_inputs: Seq<SourceOutcome> = inputs@.take(i as int);
        let ghost prev_names: Seq<Seq<char>> = names.deep_view().take(i as int);
        let ghost diags_before: Seq<Seq<char>> = diags.deep_view();
        let ghost out_before: Seq<Seq<char>> = out_lines.deep_view();
        match &inputs[i] {
            SourceOutcome::Opened(ls) => {
                let mut rendered = process_lines(policy, ls);
                let ghost rendered_view: Seq<Seq<char>> = rendered.deep_view();
                out_lines.append(&mut rendered);
                proof {
                    assert(out_lines.deep_view() =~= out_before + rendered_view);
                }
            },
            SourceOutcome::OpenFailed(cause) => {
                diags.push(diagnostic(names[i].as_str(), cause.as_str()));
            },
        }
        i += 1;
        proof {
            lemma_outputs_of_snoc(policy, prev_inputs, inputs@[i - 1]);
            lemma_diagnostics_of_snoc(
                prev_names,
                prev_inputs,
                names.deep_view()[i - 1],
                inputs@[i - 1],
            );
            assert(inputs@.take(i as int) =~= prev_inputs.push(inputs@[i - 1]));
            assert(names.deep_view().take(i as int) =~= prev_names.push(
                names.deep_view()[i - 1],
            ));
            assert(out_lines.deep_view() =~= outputs_of(policy, inputs@.take(i as int)));
            assert(diags.deep_view() =~= diagnostics_of(
                names.deep_view().take(i as int),
                inputs@.take(i as int),
            ));
        }
    }
    proof {
        assert(inputs@.take(inputs@.len() as int) =~= inputs@);
        assert(names.deep_view().take(inputs@.len() as int) =~= names.deep_view());
    }
    RunOutput { lines: out_lines, diagnostics: diags }
}

} // verus!
