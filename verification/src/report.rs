//! The reports printed by the command line: the validation of a configuration, the box drawn
//! round a rendered prompt, and the box of debug details.

use vstd::prelude::*;
use crate::config::Config;
use crate::numbers::{dec_chars, dec_string};
use crate::providers::CollectResult;
use crate::text::{chars_of, extend, join, join_exec, split_char, split_char_exec, string_from, string_views, strings_of, views};
use crate::validate::{
    format_names_from, plain_render_from, plain_renderable, render_prompt, strip_ansi_codes, strip_from, styles_from,
    time_format_ok, unknown_style_message, validate_colors_and_styles, validate_format_syntax,
    validate_time_format,
};
use crate::vars::Vars;

verus! {

broadcast use vstd::string::group_string_axioms;

/// The green `[OK]` mark that starts each passed step.
pub open spec fn ok_mark() -> Seq<char> {
    "\x1b[32m[OK]\x1b[0m"@
}

/// `text` behind the `[OK]` mark.
pub open spec fn ok_line(text: Seq<char>) -> Seq<char> {
    ok_mark() + text
}

/// The line for an optional format (`wide` or `narrow`) that is configured.
pub open spec fn extra_format_lines(label: Seq<char>, format: Option<String>) -> Seq<Seq<char>> {
    match format {
        Some(f) => seq![
            ok_line(" Format "@ + label + " valid ("@ + dec_string(format_names_from(f@, 0).len())
                + " variables)"@),
        ],
        None => Seq::empty(),
    }
}

/// The lines on the file and its formats.
pub open spec fn format_lines(config: Config, path: Seq<char>) -> Seq<Seq<char>> {
    seq![
        ok_line(" Config file found ("@ + path + ")"@),
        ok_line(" TOML syntax valid"@),
        ok_line(" Format string valid ("@ + dec_string(format_names_from(config.prompt.format@, 0).len())
            + " variables)"@),
    ] + extra_format_lines("wide"@, config.prompt.format_wide) + extra_format_lines(
        "narrow"@,
        config.prompt.format_narrow,
    )
}

/// The line on the colours and styles of the default format: their number where there are
/// any, the first unknown one where there is one.
pub open spec fn style_lines(format: Seq<char>) -> Seq<Seq<char>> {
    match styles_from(format, 0) {
        Ok(n) => if n > 0 {
            seq![ok_line(" Colors and styles valid ("@ + dec_string(n) + " found)"@)]
        } else {
            Seq::empty()
        },
        Err(p) => seq!["❌ "@ + unknown_style_message(p)],
    }
}

/// The line on the time format, where a `[time]` section is configured.
pub open spec fn time_lines(config: Config) -> Seq<Seq<char>> {
    match config.time {
        Some(tc) => if time_format_ok(tc.format@, 0) {
            seq![ok_line(" Time format valid"@)]
        } else {
            seq!["⚠  Time format may be invalid"@]
        },
        None => Seq::empty(),
    }
}

/// The warning on a time format with an unknown specifier.
pub open spec fn time_warnings(config: Config) -> Seq<Seq<char>> {
    match config.time {
        Some(tc) => if time_format_ok(tc.format@, 0) {
            Seq::empty()
        } else {
            seq!["Time format '"@ + tc.format@ + "' may contain invalid specifiers"@]
        },
        None => Seq::empty(),
    }
}

/// The line on the providers: the names of those that ran, or the error (as its debug text).
pub open spec fn provider_lines(outcome: Result<CollectResult, String>) -> Seq<Seq<char>> {
    match outcome {
        Ok(r) => seq![
            ok_line(" All providers available ("@ + join(
                r.timings@.map_values(|t: crate::providers::ProviderTiming| t.name@),
                ", "@,
            ) + ")"@),
        ],
        Err(d) => seq!["❌ Provider error: "@ + d@],
    }
}

/// The note on a configured network interface.
pub open spec fn interface_lines(config: Config) -> Seq<Seq<char>> {
    match config.ip {
        Some(ic) => match ic.interface {
            Some(i) => seq!["ℹ  IP interface '"@ + i@ + "' configured"@],
            None => Seq::empty(),
        },
        None => Seq::empty(),
    }
}

/// The trial rendering of the default format, where the providers gave their variables.
pub open spec fn trial_render(config: Config, outcome: Result<CollectResult, String>, env: Vars) -> Option<Seq<char>> {
    match outcome {
        Ok(r) => Some(
            strip_from(
                plain_render_from(config.prompt.format@, 0, config.prompt.format@, r.variables, env),
                0,
            ),
        ),
        Err(_) => None,
    }
}

/// The lines on the trial rendering.
pub open spec fn render_lines(rendered: Option<Seq<char>>) -> Seq<Seq<char>> {
    match rendered {
        Some(s) => if s.len() > 0 {
            seq![
                ok_line(" Prompt renders successfully"@),
                ok_line(" Shell compatibility verified (Raw, Tcsh, Bash, Zsh)"@),
            ]
        } else {
            Seq::empty()
        },
        None => Seq::empty(),
    }
}

/// The warnings on the trial rendering: an empty prompt, or one over 200 characters.
pub open spec fn render_warnings(rendered: Option<Seq<char>>) -> Seq<Seq<char>> {
    match rendered {
        Some(s) => if s.len() == 0 {
            seq!["Prompt rendering produced empty output"@]
        } else if s.len() > 200 {
            seq!["Prompt is long ("@ + dec_string(s.len()) + " chars), may wrap on narrow terminals"@]
        } else {
            Seq::empty()
        },
        None => Seq::empty(),
    }
}

/// The block listing the warnings, where there are any.
pub open spec fn warning_block(warnings: Seq<Seq<char>>) -> Seq<Seq<char>> {
    if warnings.len() > 0 {
        seq!["\n⚠️  Warnings:"@] + warnings.map_values(|w: Seq<char>| "   - "@ + w)
    } else {
        Seq::empty()
    }
}

/// A configuration passes where its colours and styles are known and every provider ran.
pub open spec fn config_passes(config: Config, outcome: Result<CollectResult, String>) -> bool {
    styles_from(config.prompt.format@, 0) is Ok && outcome is Ok
}

/// Every line of the report on a configuration, in order.
pub open spec fn validation_lines(
    config: Config,
    path: Seq<char>,
    outcome: Result<CollectResult, String>,
    env: Vars,
) -> Seq<Seq<char>> {
    let rendered = trial_render(config, outcome, env);
    format_lines(config, path) + style_lines(config.prompt.format@) + time_lines(config)
        + provider_lines(outcome) + interface_lines(config) + render_lines(rendered) + warning_block(
        time_warnings(config) + render_warnings(rendered),
    ) + seq![
        Seq::<char>::empty(),
        if config_passes(config, outcome) {
            "Configuration is valid."@
        } else {
            "Configuration has errors."@
        },
    ]
}

/// Appends the lines of `more` to `out`.
fn append_lines(out: &mut Vec<Vec<char>>, more: Vec<Vec<char>>)
    ensures
        views(final(out)@) == views(old(out)@) + views(more@),
{
    let mut m = more;
    let ghost start = views(out@);
    let ghost all = views(m@);
    out.append(&mut m);
    assert(views(out@) =~= start + all);
}

/// `a`, then the decimal text of `n`, then `b`.
fn with_number(a: &str, n: u64, b: &str) -> (out: Vec<char>)
    ensures
        out@ == a@ + dec_string(n as nat) + b@,
{
    let mut v = chars_of(a);
    extend(&mut v, &dec_chars(n));
    extend(&mut v, &chars_of(b));
    v
}

/// `a`, then `mid`, then `b`.
fn around(a: &str, mid: &str, b: &str) -> (out: Vec<char>)
    ensures
        out@ == a@ + mid@ + b@,
{
    let mut v = chars_of(a);
    extend(&mut v, &chars_of(mid));
    extend(&mut v, &chars_of(b));
    v
}

fn ok_text(text: Vec<char>) -> (out: Vec<char>)
    ensures
        out@ == ok_line(text@),
{
    let mut v = chars_of("\x1b[32m[OK]\x1b[0m");
    extend(&mut v, &text);
    v
}

fn extra_format_exec(label: &str, format: &Option<String>) -> (out: Vec<Vec<char>>)
    ensures
        views(out@) == extra_format_lines(label@, *format),
{
    let mut out: Vec<Vec<char>> = Vec::new();
    if let Some(f) = format {
        match validate_format_syntax(f.as_str()) {
            Ok(names) => {
                assert(string_views(names@).len() == names@.len());
                let mut t = chars_of(" Format ");
                extend(&mut t, &chars_of(label));
                extend(&mut t, &with_number(" valid (", names.len() as u64, " variables)"));
                assert(t@ =~= " Format "@ + label@ + " valid ("@ + dec_string(format_names_from(f@, 0).len())
                    + " variables)"@);
                out.push(ok_text(t));
                assert(views(out@) =~= extra_format_lines(label@, *format));
            },
            Err(_) => {},
        }
    }
    out
}

fn format_lines_exec(config: &Config, path: &str) -> (out: Vec<Vec<char>>)
    ensures
        views(out@) == format_lines(*config, path@),
{
    let mut out: Vec<Vec<char>> = Vec::new();
    match validate_format_syntax(config.prompt.format.as_str()) {
        Ok(names) => {
            assert(string_views(names@).len() == names@.len());
            out.push(ok_text(around(" Config file found (", path, ")")));
            out.push(ok_text(chars_of(" TOML syntax valid")));
            out.push(
                ok_text(with_number(" Format string valid (", names.len() as u64, " variables)")),
            );
        },
        Err(_) => {},
    }
    let ghost head = views(out@);
    append_lines(&mut out, extra_format_exec("wide", &config.prompt.format_wide));
    append_lines(&mut out, extra_format_exec("narrow", &config.prompt.format_narrow));
    assert(views(out@) =~= format_lines(*config, path@));
    out
}

fn style_lines_exec(format: &str, styles: &Result<usize, String>) -> (out: Vec<Vec<char>>)
    requires
        match styles_from(format@, 0) {
            Ok(n) => *styles matches Ok(c) && c == n,
            Err(p) => *styles matches Err(m) && m@ == unknown_style_message(p),
        },
    ensures
        views(out@) == style_lines(format@),
{
    let mut out: Vec<Vec<char>> = Vec::new();
    match styles {
        Ok(count) => {
            if *count > 0 {
                out.push(ok_text(with_number(" Colors and styles valid (", *count as u64, " found)")));
            }
        },
        Err(e) => {
            let mut v = chars_of("❌ ");
            extend(&mut v, &chars_of(e.as_str()));
            out.push(v);
        },
    }
    assert(views(out@) =~= style_lines(format@));
    out
}

fn time_exec(config: &Config) -> (out: (Vec<Vec<char>>, Vec<Vec<char>>))
    ensures
        views(out.0@) == time_lines(*config),
        views(out.1@) == time_warnings(*config),
{
    let mut lines: Vec<Vec<char>> = Vec::new();
    let mut warnings: Vec<Vec<char>> = Vec::new();
    if let Some(tc) = &config.time {
        if validate_time_format(tc.format.as_str()) {
            lines.push(ok_text(chars_of(" Time format valid")));
        } else {
            warnings.push(around("Time format '", tc.format.as_str(), "' may contain invalid specifiers"));
            lines.push(chars_of("⚠  Time format may be invalid"));
        }
    }
    assert(views(lines@) =~= time_lines(*config));
    assert(views(warnings@) =~= time_warnings(*config));
    (lines, warnings)
}

fn provider_lines_exec(outcome: &Result<CollectResult, String>) -> (out: Vec<Vec<char>>)
    ensures
        views(out@) == provider_lines(*outcome),
{
    let mut out: Vec<Vec<char>> = Vec::new();
    match outcome {
        Ok(result) => {
            let mut names: Vec<Vec<char>> = Vec::new();
            let mut k: usize = 0;
            while k < result.timings.len()
                invariant
                    k <= result.timings@.len(),
                    views(names@) == result.timings@.take(k as int).map_values(
                        |t: crate::providers::ProviderTiming| t.name@,
                    ),
                decreases result.timings@.len() - k,
            {
                let ghost before = views(names@);
                let nm = chars_of(result.timings[k].name.as_str());
                assert(nm@ == result.timings@[k as int].name@);
                names.push(nm);
                assert(views(names@) =~= before.push(nm@));
                assert(result.timings@.take(k + 1 as int) =~= result.timings@.take(k as int).push(
                    result.timings@[k as int],
                ));
                k = k + 1;
                assert(views(names@) =~= result.timings@.take(k as int).map_values(
                    |t: crate::providers::ProviderTiming| t.name@,
                ));
            }
            assert(result.timings@.take(k as int) =~= result.timings@);
            let mut t = chars_of(" All providers available (");
            extend(&mut t, &join_exec(&names, &chars_of(", ")));
            extend(&mut t, &chars_of(")"));
            out.push(ok_text(t));
        },
        Err(d) => {
            let mut v = chars_of("❌ Provider error: ");
            extend(&mut v, &chars_of(d.as_str()));
            out.push(v);
        },
    }
    assert(views(out@) =~= provider_lines(*outcome));
    out
}

fn interface_lines_exec(config: &Config) -> (out: Vec<Vec<char>>)
    ensures
        views(out@) == interface_lines(*config),
{
    let mut out: Vec<Vec<char>> = Vec::new();
    if let Some(ic) = &config.ip {
        if let Some(iface) = &ic.interface {
            out.push(around("ℹ  IP interface '", iface.as_str(), "' configured"));
        }
    }
    assert(views(out@) =~= interface_lines(*config));
    out
}

fn render_exec(rendered: &Option<String>) -> (out: (Vec<Vec<char>>, Vec<Vec<char>>))
    ensures
        views(out.0@) == render_lines(match rendered { Some(s) => Some(s@), None => None }),
        views(out.1@) == render_warnings(match rendered { Some(s) => Some(s@), None => None }),
{
    let ghost r = match rendered { Some(s) => Some(s@), None => None::<Seq<char>> };
    let mut lines: Vec<Vec<char>> = Vec::new();
    let mut warnings: Vec<Vec<char>> = Vec::new();
    if let Some(s) = rendered {
        let sc = chars_of(s.as_str());
        if sc.len() > 0 {
            lines.push(ok_text(chars_of(" Prompt renders successfully")));
            if sc.len() > 200 {
                warnings.push(
                    with_number("Prompt is long (", sc.len() as u64, " chars), may wrap on narrow terminals"),
                );
            }
            lines.push(ok_text(chars_of(" Shell compatibility verified (Raw, Tcsh, Bash, Zsh)")));
        } else {
            warnings.push(chars_of("Prompt rendering produced empty output"));
        }
    }
    assert(views(lines@) =~= render_lines(r));
    assert(views(warnings@) =~= render_warnings(r));
    (lines, warnings)
}

fn warning_block_exec(warnings: &Vec<Vec<char>>) -> (out: Vec<Vec<char>>)
    ensures
        views(out@) == warning_block(views(warnings@)),
{
    let mut out: Vec<Vec<char>> = Vec::new();
    if warnings.len() > 0 {
        out.push(chars_of("\n⚠️  Warnings:"));
        let mut k: usize = 0;
        while k < warnings.len()
            invariant
                k <= warnings@.len(),
                warnings@.len() > 0,
                views(out@) == seq!["\n⚠️  Warnings:"@] + views(warnings@).take(k as int).map_values(
                    |w: Seq<char>| "   - "@ + w,
                ),
            decreases warnings@.len() - k,
        {
            let ghost before = views(out@);
            let mut v = chars_of("   - ");
            extend(&mut v, &warnings[k]);
            out.push(v);
            assert(views(out@) =~= before.push(v@));
            assert(views(warnings@).take(k + 1 as int) =~= views(warnings@).take(k as int).push(
                warnings@[k as int]@,
            ));
            k = k + 1;
            assert(views(out@) =~= seq!["\n⚠️  Warnings:"@] + views(warnings@).take(k as int).map_values(
                |w: Seq<char>| "   - "@ + w,
            ));
        }
        assert(views(warnings@).take(k as int) =~= views(warnings@));
    }
    assert(views(out@) =~= warning_block(views(warnings@)));
    out
}

/// The report on a configuration, as the lines to print and whether it passes: its formats,
/// its colours and styles, its time format, the outcome of running the providers (the
/// collected variables, or the debug text of the error), the configured interface, a trial
/// rendering of the default format, the warnings, and the verdict.
pub fn validation_report(
    config: &Config,
    config_path: &str,
    outcome: &Result<CollectResult, String>,
    env: &Vars,
) -> (r: (Vec<String>, bool))
    requires
        outcome is Ok ==> plain_renderable(config.prompt.format@, 0),
    ensures
        string_views(r.0@) == validation_lines(*config, config_path@, *outcome, *env),
        r.1 == config_passes(*config, *outcome),
{
    let mut out = format_lines_exec(config, config_path);
    let styles = validate_colors_and_styles(config.prompt.format.as_str());
    append_lines(&mut out, style_lines_exec(config.prompt.format.as_str(), &styles));
    let (time_out, time_warn) = time_exec(config);
    append_lines(&mut out, time_out);
    append_lines(&mut out, provider_lines_exec(outcome));
    append_lines(&mut out, interface_lines_exec(config));
    let rendered: Option<String> = match outcome {
        Ok(result) => Some(render_prompt(config.prompt.format.as_str(), &result.variables, env)),
        Err(_) => None,
    };
    let ghost rv = trial_render(*config, *outcome, *env);
    assert(rv == match rendered { Some(s) => Some(s@), None => None::<Seq<char>> });
    let (render_out, render_warn) = render_exec(&rendered);
    append_lines(&mut out, render_out);
    let mut warnings = time_warn;
    append_lines(&mut warnings, render_warn);
    append_lines(&mut out, warning_block_exec(&warnings));
    let success = styles.is_ok() && outcome.is_ok();
    out.push(Vec::new());
    if success {
        out.push(chars_of("Configuration is valid."));
    } else {
        out.push(chars_of("Configuration has errors."));
    }
    assert(views(out@) =~= validation_lines(*config, config_path@, *outcome, *env));
    (strings_of(&out), success)
}


/// `n` copies of `c`.
pub open spec fn repeated(c: char, n: nat) -> Seq<char> {
    Seq::new(n, |_i: int| c)
}

/// The larger of two numbers.
pub open spec fn larger(a: nat, b: nat) -> nat {
    if a >= b {
        a
    } else {
        b
    }
}

/// The length of the longest of the pieces, or `floor` where that is more.
pub open spec fn widest(pieces: Seq<Seq<char>>, floor: nat) -> nat
    decreases pieces.len(),
{
    if pieces.len() == 0 {
        floor
    } else {
        larger(widest(pieces.drop_last(), floor), pieces.last().len())
    }
}

/// A top or bottom edge of a box whose lines hold `width` characters between `"│ "` and
/// `" │"`.
pub open spec fn box_edge(left: char, right: char, width: nat) -> Seq<char> {
    seq![left] + repeated('─', width + 2) + seq![right]
}

/// The lines of a prompt, each without its colour escapes.
pub open spec fn visible_lines(prompt: Seq<char>) -> Seq<Seq<char>> {
    split_char(prompt, '\n').map_values(|l: Seq<char>| strip_from(l, 0))
}

/// The width of the box round a prompt: its widest visible line, at least 50.
pub open spec fn prompt_box_width(prompt: Seq<char>) -> nat {
    widest(visible_lines(prompt), 50)
}

/// One line of a prompt in its box, padded by its visible length.
pub open spec fn prompt_box_line(line: Seq<char>, width: nat) -> Seq<char> {
    "│ "@ + line + repeated(' ', (width - strip_from(line, 0).len()) as nat) + " │"@
}

/// The box drawn round a rendered prompt: the top edge, each line of the prompt with its
/// escapes kept and padded to the widest visible line, the bottom edge.
pub open spec fn prompt_box_lines(prompt: Seq<char>) -> Seq<Seq<char>> {
    let w = prompt_box_width(prompt);
    seq![box_edge('┌', '┐', w)] + split_char(prompt, '\n').map_values(
        |l: Seq<char>| prompt_box_line(l, w),
    ) + seq![box_edge('└', '┘', w)]
}

proof fn lemma_strip_len(t: Seq<char>, i: int)
    requires
        0 <= i,
    ensures
        strip_from(t, i).len() <= if i <= t.len() { t.len() - i } else { 0 },
    decreases t.len() - i,
{
    if i < t.len() {
        match crate::validate::sgr_end(t, i) {
            Some(k) => if i < k {
                lemma_strip_len(t, k + 1);
            },
            None => {
                lemma_strip_len(t, i + 1);
            },
        }
    }
}

proof fn lemma_split_piece_len(s: Seq<char>, c: char)
    ensures
        forall|k: int| 0 <= k < split_char(s, c).len() ==> #[trigger] split_char(s, c)[k].len() <= s.len(),
    decreases s.len(),
{
    match crate::text::find_from(s, seq![c], 0) {
        None => {},
        Some(i) => if i < 0 || i + 1 > s.len() {
        } else {
            let rest = s.subrange(i + 1, s.len() as int);
            lemma_split_piece_len(rest, c);
            assert forall|k: int| 0 <= k < split_char(s, c).len() implies #[trigger] split_char(s, c)[k].len()
                <= s.len() by {
                if k > 0 {
                    assert(split_char(s, c)[k] == split_char(rest, c)[k - 1]);
                }
            }
        },
    }
}

proof fn lemma_widest_bound(pieces: Seq<Seq<char>>, floor: nat, bound: nat)
    requires
        floor <= bound,
        forall|k: int| 0 <= k < pieces.len() ==> #[trigger] pieces[k].len() <= bound,
    ensures
        widest(pieces, floor) <= bound,
        widest(pieces, floor) >= floor,
        forall|k: int| 0 <= k < pieces.len() ==> #[trigger] pieces[k].len() <= widest(pieces, floor),
    decreases pieces.len(),
{
    if pieces.len() > 0 {
        let init = pieces.drop_last();
        assert forall|k: int| 0 <= k < init.len() implies #[trigger] init[k].len() <= bound by {
            assert(init[k] == pieces[k]);
        }
        lemma_widest_bound(init, floor, bound);
        assert forall|k: int| 0 <= k < pieces.len() implies #[trigger] pieces[k].len() <= widest(
            pieces,
            floor,
        ) by {
            if k < pieces.len() - 1 {
                assert(init[k] == pieces[k]);
            }
        }
    }
}

/// `n` copies of `c`.
fn repeated_exec(c: char, n: usize) -> (out: Vec<char>)
    ensures
        out@ == repeated(c, n as nat),
{
    let mut out: Vec<char> = Vec::new();
    let mut k: usize = 0;
    while k < n
        invariant
            k <= n,
            out@ == repeated(c, k as nat),
        decreases n - k,
    {
        out.push(c);
        k = k + 1;
        assert(out@ =~= repeated(c, k as nat));
    }
    out
}

fn box_edge_exec(left: char, right: char, width: usize) -> (out: Vec<char>)
    requires
        width + 2 <= usize::MAX,
    ensures
        out@ == box_edge(left, right, width as nat),
{
    let mut v = vec![left];
    extend(&mut v, &repeated_exec('─', width + 2));
    v.push(right);
    assert(v@ =~= box_edge(left, right, width as nat));
    v
}

/// The box drawn round a rendered prompt (see `prompt_box_lines`).
pub fn prompt_box(prompt: &str) -> (out: Vec<String>)
    requires
        prompt@.len() + 2 <= usize::MAX,
    ensures
        string_views(out@) == prompt_box_lines(prompt@),
{
    let pc = chars_of(prompt);
    let lines = split_char_exec(&pc, '\n');
    let ghost ls = split_char(prompt@, '\n');
    let ghost vis = visible_lines(prompt@);
    let mut stripped: Vec<Vec<char>> = Vec::new();
    let mut w: usize = 50;
    proof {
        lemma_split_piece_len(prompt@, '\n');
        assert forall|k: int| 0 <= k < vis.len() implies #[trigger] vis[k].len() <= prompt@.len() by {
            lemma_strip_len(ls[k], 0);
        }
        lemma_widest_bound(vis, 50, if prompt@.len() > 50 { prompt@.len() } else { 50 });
    }
    let mut k: usize = 0;
    while k < lines.len()
        invariant
            views(lines@) == ls,
            ls == split_char(prompt@, '\n'),
            vis == visible_lines(prompt@),
            k <= lines@.len(),
            views(stripped@) == vis.take(k as int),
            w == widest(vis.take(k as int), 50),
            widest(vis, 50) + 2 <= usize::MAX,
            forall|m: int| 0 <= m < vis.len() ==> #[trigger] vis[m].len() <= widest(vis, 50),
        decreases lines@.len() - k,
    {
        let st = chars_of(strip_ansi_codes(string_from(&lines[k]).as_str()).as_str());
        assert(st@ == vis[k as int]);
        let ghost before = views(stripped@);
        stripped.push(st);
        assert(views(stripped@) =~= before.push(st@));
        assert(vis.take(k + 1 as int).drop_last() =~= vis.take(k as int));
        if stripped[k].len() > w {
            w = stripped[k].len();
        }
        k = k + 1;
    }
    assert(vis.take(k as int) =~= vis);
    let mut out: Vec<Vec<char>> = Vec::new();
    out.push(box_edge_exec('┌', '┐', w));
    let mut m: usize = 0;
    while m < lines.len()
        invariant
            views(lines@) == ls,
            views(stripped@) == vis,
            vis == visible_lines(prompt@),
            ls == split_char(prompt@, '\n'),
            m <= lines@.len(),
            w == prompt_box_width(prompt@),
            forall|j: int| 0 <= j < vis.len() ==> #[trigger] vis[j].len() <= w,
            views(out@) == seq![box_edge('┌', '┐', w as nat)] + ls.take(m as int).map_values(
                |l: Seq<char>| prompt_box_line(l, w as nat),
            ),
        decreases lines@.len() - m,
    {
        let ghost before = views(out@);
        let mut v = chars_of("│ ");
        extend(&mut v, &lines[m]);
        assert(vis[m as int] == strip_from(ls[m as int], 0));
        extend(&mut v, &repeated_exec(' ', w - stripped[m].len()));
        extend(&mut v, &chars_of(" │"));
        assert(v@ == prompt_box_line(ls[m as int], w as nat));
        out.push(v);
        assert(views(out@) =~= before.push(v@));
        assert(ls.take(m + 1 as int) =~= ls.take(m as int).push(ls[m as int]));
        m = m + 1;
    }
    assert(ls.take(m as int) =~= ls);
    out.push(box_edge_exec('└', '┘', w));
    assert(views(out@) =~= prompt_box_lines(prompt@));
    strings_of(&out)
}


/// Whether a character is counted as two columns wide (the pictographs above U+1F000).
pub open spec fn is_wide(c: char) -> bool {
    (c as u32) > 0x1F000
}

/// The number of wide characters in `s`.
pub open spec fn wide_chars(s: Seq<char>) -> nat
    decreases s.len(),
{
    if s.len() == 0 {
        0
    } else {
        wide_chars(s.drop_last()) + if is_wide(s.last()) {
            1nat
        } else {
            0nat
        }
    }
}

/// The columns a piece of text takes: one per character, two per wide one.
pub open spec fn display_width(s: Seq<char>) -> nat {
    s.len() + wide_chars(s)
}

/// The widest display width among the pieces, or `floor` where that is more.
pub open spec fn widest_display(pieces: Seq<Seq<char>>, floor: nat) -> nat
    decreases pieces.len(),
{
    if pieces.len() == 0 {
        floor
    } else {
        larger(widest_display(pieces.drop_last(), floor), display_width(pieces.last()))
    }
}

/// The header that opens the debug box.
pub open spec fn debug_header() -> Seq<char> {
    "┌─ 🔍 twig debug "@
}

/// The width of the debug box: its widest line, at least 40.
pub open spec fn debug_box_width(config_line: Seq<char>, timing_line: Seq<char>, provider_lines: Seq<Seq<char>>) -> nat {
    widest_display(
        provider_lines,
        larger(larger(display_width(config_line), display_width(timing_line)), 40),
    )
}

/// One line of the debug box, padded by its display width.
pub open spec fn debug_box_line(line: Seq<char>, width: nat) -> Seq<char> {
    "│ "@ + line + repeated(' ', (width - display_width(line)) as nat) + " │"@
}

/// The debug box: the header edge, the configuration line, one line per provider, the
/// timing line, the bottom edge; each padded to the widest.
pub open spec fn debug_box_lines(config_line: Seq<char>, timing_line: Seq<char>, provider_lines: Seq<Seq<char>>) -> Seq<Seq<char>> {
    let w = debug_box_width(config_line, timing_line, provider_lines);
    seq![
        debug_header() + repeated('─', (w + 2 - display_width(debug_header())) as nat) + seq!['┐'],
        debug_box_line(config_line, w),
    ] + provider_lines.map_values(|p: Seq<char>| debug_box_line(p, w)) + seq![
        debug_box_line(timing_line, w),
        box_edge('└', '┘', w),
    ]
}

proof fn lemma_wide_bound(s: Seq<char>)
    ensures
        wide_chars(s) <= s.len(),
    decreases s.len(),
{
    if s.len() > 0 {
        lemma_wide_bound(s.drop_last());
    }
}

proof fn lemma_widest_display_bound(pieces: Seq<Seq<char>>, floor: nat, bound: nat)
    requires
        floor <= bound,
        forall|k: int| 0 <= k < pieces.len() ==> display_width(#[trigger] pieces[k]) <= bound,
    ensures
        floor <= widest_display(pieces, floor) <= bound,
        forall|k: int| 0 <= k < pieces.len() ==> display_width(#[trigger] pieces[k]) <= widest_display(pieces, floor),
    decreases pieces.len(),
{
    if pieces.len() > 0 {
        let init = pieces.drop_last();
        assert forall|k: int| 0 <= k < init.len() implies display_width(#[trigger] init[k]) <= bound by {
            assert(init[k] == pieces[k]);
        }
        lemma_widest_display_bound(init, floor, bound);
        assert forall|k: int| 0 <= k < pieces.len() implies display_width(#[trigger] pieces[k])
            <= widest_display(pieces, floor) by {
            if k < pieces.len() - 1 {
                assert(init[k] == pieces[k]);
            }
        }
    }
}

/// The display width of `s`.
fn display_width_exec(s: &[char]) -> (w: usize)
    requires
        s@.len() <= usize::MAX / 2,
    ensures
        w == display_width(s@),
{
    let mut wide: usize = 0;
    let mut k: usize = 0;
    while k < s.len()
        invariant
            k <= s@.len(),
            s@.len() <= usize::MAX / 2,
            wide == wide_chars(s@.take(k as int)),
            wide <= k,
        decreases s@.len() - k,
    {
        assert(s@.take(k + 1 as int).drop_last() =~= s@.take(k as int));
        if (s[k] as u32) > 0x1F000 {
            wide = wide + 1;
        }
        k = k + 1;
    }
    assert(s@.take(k as int) =~= s@);
    s.len() + wide
}

fn debug_box_line_exec(line: &[char], width: usize) -> (out: Vec<char>)
    requires
        display_width(line@) <= width,
        line@.len() <= usize::MAX / 2,
    ensures
        out@ == debug_box_line(line@, width as nat),
{
    let lw = display_width_exec(line);
    let mut v = chars_of("│ ");
    extend(&mut v, line);
    extend(&mut v, &repeated_exec(' ', width - lw));
    extend(&mut v, &chars_of(" │"));
    v
}

/// The debug box (see `debug_box_lines`) round the configuration line, the timing line and
/// the lines of the providers' timings.
pub fn debug_box(config_line: &str, timing_line: &str, provider_lines: &Vec<String>) -> (out: Vec<String>)
    requires
        config_line@.len() <= usize::MAX / 4,
        timing_line@.len() <= usize::MAX / 4,
        forall|k: int| 0 <= k < provider_lines@.len() ==> #[trigger] provider_lines@[k]@.len() <= usize::MAX / 4,
    ensures
        string_views(out@) == debug_box_lines(config_line@, timing_line@, string_views(provider_lines@)),
{
    let ghost ps = string_views(provider_lines@);
    let cl = chars_of(config_line);
    let tl = chars_of(timing_line);
    let cw = display_width_exec(&cl);
    let tw = display_width_exec(&tl);
    let mut w: usize = if cw >= tw { cw } else { tw };
    if w < 40 {
        w = 40;
    }
    proof {
        lemma_wide_bound(config_line@);
        lemma_wide_bound(timing_line@);
        assert forall|k: int| 0 <= k < ps.len() implies display_width(#[trigger] ps[k]) <= usize::MAX / 2 by {
            lemma_wide_bound(ps[k]);
        }
        lemma_widest_display_bound(ps, w as nat, usize::MAX as nat / 2);
    }
    let ghost floor = w as nat;
    let mut k: usize = 0;
    while k < provider_lines.len()
        invariant
            ps == string_views(provider_lines@),
            k <= ps.len(),
            floor <= usize::MAX / 2,
            w == widest_display(ps.take(k as int), floor),
            forall|j: int| 0 <= j < ps.len() ==> #[trigger] ps[j].len() <= usize::MAX / 4,
        decreases ps.len() - k,
    {
        let pc = chars_of(provider_lines[k].as_str());
        assert(pc@ == ps[k as int]);
        let pw = display_width_exec(&pc);
        assert(ps.take(k + 1 as int).drop_last() =~= ps.take(k as int));
        if pw > w {
            w = pw;
        }
        k = k + 1;
    }
    assert(ps.take(k as int) =~= ps);
    assert(w == debug_box_width(config_line@, timing_line@, ps));
    let header = chars_of("┌─ 🔍 twig debug ");
    proof {
        reveal_strlit("┌─ 🔍 twig debug ");
        lemma_wide_bound(debug_header());
    }
    let hw = display_width_exec(&header);
    let mut out: Vec<Vec<char>> = Vec::new();
    let mut top = header;
    extend(&mut top, &repeated_exec('─', w + 2 - hw));
    top.push('┐');
    assert(top@ =~= debug_header() + repeated('─', (w + 2 - display_width(debug_header())) as nat)
        + seq!['┐']);
    let first = debug_box_line_exec(&cl, w);
    out.push(top);
    out.push(first);
    assert(views(out@) =~= seq![
        debug_header() + repeated('─', (w + 2 - display_width(debug_header())) as nat) + seq!['┐'],
        debug_box_line(config_line@, w as nat),
    ] + ps.take(0).map_values(|p: Seq<char>| debug_box_line(p, w as nat)));
    let mut m: usize = 0;
    while m < provider_lines.len()
        invariant
            ps == string_views(provider_lines@),
            m <= ps.len(),
            w == debug_box_width(config_line@, timing_line@, ps),
            forall|j: int| 0 <= j < ps.len() ==> display_width(#[trigger] ps[j]) <= w,
            forall|j: int| 0 <= j < ps.len() ==> #[trigger] ps[j].len() <= usize::MAX / 4,
            views(out@) == seq![
                debug_header() + repeated('─', (w + 2 - display_width(debug_header())) as nat) + seq!['┐'],
                debug_box_line(config_line@, w as nat),
            ] + ps.take(m as int).map_values(|p: Seq<char>| debug_box_line(p, w as nat)),
        decreases ps.len() - m,
    {
        let ghost before = views(out@);
        let pc = chars_of(provider_lines[m].as_str());
        assert(pc@ == ps[m as int]);
        let line = debug_box_line_exec(&pc, w);
        out.push(line);
        assert(views(out@) =~= before.push(line@));
        assert(ps.take(m + 1 as int) =~= ps.take(m as int).push(ps[m as int]));
        m = m + 1;
    }
    assert(ps.take(m as int) =~= ps);
    out.push(debug_box_line_exec(&tl, w));
    out.push(box_edge_exec('└', '┘', w));
    assert(views(out@) =~= debug_box_lines(config_line@, timing_line@, ps));
    strings_of(&out)
}

} // verus!
