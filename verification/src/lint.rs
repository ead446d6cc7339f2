//! Compiling the enabled rules from command-line parameters, running them over a name, and
//! the report of each failure.
use vstd::prelude::*;
use crate::rules::{param_or, RuleCheck, RuleSpec};
use crate::text::str_equals;

verus! {

/// An active checker: a rule slug paired with its compiled check.
#[derive(Clone, Copy, Debug)]
pub struct ActiveRule {
    pub slug: &'static str,
    pub check: RuleCheck,
}

/// The view of the parameters given on the command line, one per rule.
pub open spec fn params_view(params: Seq<Option<String>>) -> Seq<Option<Seq<char>>> {
    params.map_values(|p: Option<String>| crate::rules::param_view(p))
}

/// The active rules: each rule, in order, compiled for its command-line parameter or, when it
/// has none, for its `no_arg` value; the rules that compile to no check are left out.
pub open spec fn spec_active_rules(rules: Seq<RuleSpec>, params: Seq<Option<Seq<char>>>) -> Seq<ActiveRule>
    decreases rules.len(),
{
    if rules.len() == 0 {
        seq![]
    } else {
        let prev = spec_active_rules(rules.drop_last(), params.drop_last());
        let r = rules.last();
        match r.check.builds(Some(param_or(params.last(), r.no_arg@))) {
            Some(c) => prev.push(ActiveRule { slug: r.slug, check: c }),
            None => prev,
        }
    }
}

/// Compiles every rule for its parameter (`params[i]` belongs to `rules[i]`) and keeps the
/// enabled ones.
pub fn select_active_rules(rules: &Vec<RuleSpec>, params: &Vec<Option<String>>) -> (r: Vec<ActiveRule>)
    requires
        params@.len() == rules@.len(),
    ensures
        r@ == spec_active_rules(rules@, params_view(params@)),
{
    let n = rules.len();
    let ghost pv = params_view(params@);
    let mut active: Vec<ActiveRule> = Vec::new();
    let mut i: usize = 0;
    assert(rules@.take(0) =~= Seq::<RuleSpec>::empty());
    while i < n
        invariant
            i <= n,
            n == rules@.len(),
            params@.len() == n,
            pv == params_view(params@),
            active@ == spec_active_rules(rules@.take(i as int), pv.take(i as int)),
        decreases n - i,
    {
        let rule = rules[i];
        let param: Option<String> = match &params[i] {
            Some(p) => Some(p.clone()),
            None => Some(String::from_str(rule.no_arg)),
        };
        let ghost rs = rules@.take(i + 1);
        let ghost ps = pv.take(i + 1);
        assert(rs.drop_last() =~= rules@.take(i as int));
        assert(ps.drop_last() =~= pv.take(i as int));
        assert(rs.last() == rule);
        assert(ps.last() == pv[i as int]);
        assert(crate::rules::param_view(param) == Some(param_or(ps.last(), rule.no_arg@)));
        match rule.check.build(param) {
            Some(check) => {
                active.push(ActiveRule { slug: rule.slug, check });
            },
            None => {},
        }
        i = i + 1;
    }
    assert(rules@.take(n as int) =~= rules@);
    assert(pv.take(n as int) =~= pv);
    active
}

/// The slugs of the active rules that reject `name`, in order.
pub open spec fn spec_failing_rules(active: Seq<ActiveRule>, name: Seq<char>) -> Seq<&'static str>
    decreases active.len(),
{
    if active.len() == 0 {
        seq![]
    } else {
        let prev = spec_failing_rules(active.drop_last(), name);
        let a = active.last();
        if a.check.accepts(name) {
            prev
        } else {
            prev.push(a.slug)
        }
    }
}

/// Applies the active rules to a name; the result lists the slugs of the rules it fails, and
/// its length is the name's error count.
pub fn failing_rules(active: &Vec<ActiveRule>, name: &str) -> (r: Vec<&'static str>)
    ensures
        r@ == spec_failing_rules(active@, name@),
{
    let n = active.len();
    let mut failed: Vec<&'static str> = Vec::new();
    let mut i: usize = 0;
    assert(active@.take(0) =~= Seq::<ActiveRule>::empty());
    while i < n
        invariant
            i <= n,
            n == active@.len(),
            failed@ == spec_failing_rules(active@.take(i as int), name@),
        decreases n - i,
    {
        let a = active[i];
        let ghost xs = active@.take(i + 1);
        assert(xs.drop_last() =~= active@.take(i as int));
        assert(xs.last() == a);
        if !a.check.check(name) {
            failed.push(a.slug);
        }
        i = i + 1;
    }
    assert(active@.take(n as int) =~= active@);
    failed
}

/// The lower-case hexadecimal digit of `d` (`0 <= d < 16`).
pub open spec fn hex_digit(d: int) -> char {
    if d < 10 {
        (48 + d) as char
    } else {
        (87 + d) as char
    }
}

/// How one character is written inside a JSON string literal: quote and backslash are
/// escaped with a backslash; backspace, tab, line feed, form feed and carriage return as
/// `\b \t \n \f \r`; every other character below U+0020 as `\u00` and two lower-case hex
/// digits; all other characters as themselves.
pub open spec fn json_escape_char(c: char) -> Seq<char> {
    if c == '"' {
        seq!['\\', '"']
    } else if c == '\\' {
        seq!['\\', '\\']
    } else if c == '\u{8}' {
        seq!['\\', 'b']
    } else if c == '\t' {
        seq!['\\', 't']
    } else if c == '\n' {
        seq!['\\', 'n']
    } else if c == '\u{c}' {
        seq!['\\', 'f']
    } else if c == '\r' {
        seq!['\\', 'r']
    } else if (c as u32) < 0x20 {
        seq!['\\', 'u', '0', '0', hex_digit((c as int) / 16), hex_digit((c as int) % 16)]
    } else {
        seq![c]
    }
}

/// The characters of `s`, each written as `json_escape_char` says.
pub open spec fn json_escaped(s: Seq<char>) -> Seq<char>
    decreases s.len(),
{
    if s.len() == 0 {
        seq![]
    } else {
        json_escaped(s.drop_last()) + json_escape_char(s.last())
    }
}

/// The JSON string literal of `s`: the escaped characters between double quotes.
pub open spec fn json_string(s: Seq<char>) -> Seq<char> {
    seq!['"'] + json_escaped(s) + seq!['"']
}

#[verifier::external_type_specification]
#[verifier::external_body]
pub struct ExJsonError(serde_json::Error);

/// Calls `serde_json::to_string` on a string slice. Its contract claims that the call
/// succeeds (serializing a `str` into the in-memory buffer that `to_string` uses has no way to
/// fail) and that the text is `json_string` of the characters: the string between double
/// quotes, with the escapes of the crate's `ESCAPE` table and `write_char_escape`.
#[verifier::external_body]
fn json_string_literal(s: &str) -> (r: Result<String, serde_json::Error>)
    ensures
        r is Ok,
        r->Ok_0@ == json_string(s@),
{
    serde_json::to_string(s)
}

/// The JSON object of a failure, from the JSON literals of the file name and of the slug.
pub open spec fn spec_json_failure_object(filename_json: Seq<char>, rule_json: Seq<char>) -> Seq<char> {
    "{\"filename\":"@ + filename_json + ",\"rule\":"@ + rule_json + "}"@
}

/// Assembles the JSON object of a failure from the JSON literals of its two values.
pub fn json_failure_object(filename_json: &str, rule_json: &str) -> (r: String)
    ensures
        r@ == spec_json_failure_object(filename_json@, rule_json@),
{
    let mut s = String::from_str("{\"filename\":");
    s.append(filename_json);
    s.append(",\"rule\":");
    s.append(rule_json);
    s.append("}");
    s
}

/// A failure line and the stream it goes to.
pub struct FailureReport {
    pub to_stdout: bool,
    pub line: String,
}

/// In `json` format a failure is a JSON object on standard output; in any other format it is
/// `filename: rule` on standard error.
pub open spec fn spec_failure_report(filename: Seq<char>, rule_slug: Seq<char>, output_format: Seq<char>) -> (bool, Seq<char>) {
    if output_format == "json"@ {
        (true, spec_json_failure_object(json_string(filename), json_string(rule_slug)))
    } else {
        (false, filename + ": "@ + rule_slug)
    }
}

/// The report of one failure of a name.
pub fn failure_report(filename: &str, rule_slug: &str, output_format: &str) -> (r: FailureReport)
    ensures
        (r.to_stdout, r.line@) == spec_failure_report(filename@, rule_slug@, output_format@),
{
    if str_equals(output_format, "json") {
        let f = json_string_literal(filename).unwrap();
        let g = json_string_literal(rule_slug).unwrap();
        FailureReport { to_stdout: true, line: json_failure_object(f.as_str(), g.as_str()) }
    } else {
        let mut line = String::from_str(filename);
        line.append(": ");
        line.append(rule_slug);
        FailureReport { to_stdout: false, line }
    }
}


/// The failures of a name are exactly the active rules that reject it: every listed slug
/// belongs to an active rule whose check rejects the name, every such rule is listed, and a
/// name that every active rule accepts has no failure.
pub proof fn lemma_failing_rules_are_the_rejections(active: Seq<ActiveRule>, name: Seq<char>)
    ensures
        spec_failing_rules(active, name).len() <= active.len(),
        forall|k: int|
            0 <= k < active.len() && !(#[trigger] active[k]).check.accepts(name)
                ==> spec_failing_rules(active, name).contains(active[k].slug),
        forall|j: int|
            0 <= j < spec_failing_rules(active, name).len() ==> exists|k: int|
                0 <= k < active.len() && (#[trigger] active[k]).slug == #[trigger] spec_failing_rules(active, name)[j]
                    && !active[k].check.accepts(name),
        (forall|k: int| 0 <= k < active.len() ==> (#[trigger] active[k]).check.accepts(name))
            ==> spec_failing_rules(active, name).len() == 0,
    decreases active.len(),
{
    if active.len() > 0 {
        let front = active.drop_last();
        lemma_failing_rules_are_the_rejections(front, name);
        let prev = spec_failing_rules(front, name);
        let res = spec_failing_rules(active, name);
        let a = active.last();
        assert forall|k: int|
            0 <= k < active.len() && !(#[trigger] active[k]).check.accepts(name) implies res.contains(active[k].slug) by {
            if k < active.len() - 1 {
                assert(active[k] == front[k]);
                let j = choose|j: int| 0 <= j < prev.len() && prev[j] == front[k].slug;
                assert(res[j] == prev[j]);
            } else {
                assert(res[res.len() - 1] == a.slug);
            }
        }
        assert forall|j: int| 0 <= j < res.len() implies exists|k: int|
            0 <= k < active.len() && (#[trigger] active[k]).slug == #[trigger] res[j] && !active[k].check.accepts(name) by {
            if j < prev.len() {
                assert(res[j] == prev[j]);
                let k = choose|k: int| 0 <= k < front.len() && (#[trigger] front[k]).slug == prev[j] && !front[k].check.accepts(name);
                assert(active[k] == front[k]);
            } else {
                assert(active[active.len() - 1] == a);
            }
        }
        if forall|k: int| 0 <= k < active.len() ==> (#[trigger] active[k]).check.accepts(name) {
            assert forall|k: int| 0 <= k < front.len() implies (#[trigger] front[k]).check.accepts(name) by {
                assert(active[k] == front[k]);
            }
            assert(active[active.len() - 1].check.accepts(name));
        }
    }
}

/// The active rules are exactly the rules whose parameter (or, without one, `no_arg` value)
/// compiles to a check: each enabled rule appears with its slug and that check, and every
/// active rule comes from such a rule.
pub proof fn lemma_active_rules_are_the_enabled(rules: Seq<RuleSpec>, params: Seq<Option<Seq<char>>>)
    requires
        params.len() == rules.len(),
    ensures
        spec_active_rules(rules, params).len() <= rules.len(),
        forall|k: int| 0 <= k < rules.len() ==> match (#[trigger] rules[k]).check.builds(Some(param_or(params[k], rules[k].no_arg@))) {
            Some(c) => spec_active_rules(rules, params).contains(ActiveRule { slug: rules[k].slug, check: c }),
            None => true,
        },
        forall|j: int| 0 <= j < spec_active_rules(rules, params).len() ==> exists|k: int|
            0 <= k < rules.len() && (#[trigger] rules[k]).check.builds(Some(param_or(params[k], rules[k].no_arg@)))
                == Some((#[trigger] spec_active_rules(rules, params)[j]).check)
                && spec_active_rules(rules, params)[j].slug == rules[k].slug,
    decreases rules.len(),
{
    if rules.len() > 0 {
        let fr = rules.drop_last();
        let fp = params.drop_last();
        lemma_active_rules_are_the_enabled(fr, fp);
        let prev = spec_active_rules(fr, fp);
        let res = spec_active_rules(rules, params);
        let n = rules.len() - 1;
        assert forall|k: int| 0 <= k < rules.len() implies match (#[trigger] rules[k]).check.builds(Some(param_or(params[k], rules[k].no_arg@))) {
            Some(c) => res.contains(ActiveRule { slug: rules[k].slug, check: c }),
            None => true,
        } by {
            if k < n {
                assert(rules[k] == fr[k] && params[k] == fp[k]);
                match fr[k].check.builds(Some(param_or(fp[k], fr[k].no_arg@))) {
                    Some(c) => {
                        let x = ActiveRule { slug: fr[k].slug, check: c };
                        assert(prev.contains(x));
                        let j = choose|j: int| 0 <= j < prev.len() && prev[j] == x;
                        assert(res[j] == prev[j]);
                    },
                    None => {},
                }
            } else {
                match rules[k].check.builds(Some(param_or(params[k], rules[k].no_arg@))) {
                    Some(c) => {
                        assert(res[res.len() - 1] == ActiveRule { slug: rules[k].slug, check: c });
                    },
                    None => {},
                }
            }
        }
        assert forall|j: int| 0 <= j < res.len() implies exists|k: int|
            0 <= k < rules.len() && (#[trigger] rules[k]).check.builds(Some(param_or(params[k], rules[k].no_arg@)))
                == Some((#[trigger] res[j]).check) && res[j].slug == rules[k].slug by {
            if j < prev.len() {
                assert(res[j] == prev[j]);
                let k = choose|k: int| 0 <= k < fr.len() && (#[trigger] fr[k]).check.builds(Some(param_or(fp[k], fr[k].no_arg@)))
                    == Some((#[trigger] prev[j]).check) && prev[j].slug == fr[k].slug;
                assert(rules[k] == fr[k] && params[k] == fp[k]);
            } else {
                assert(rules[n] == rules.last() && params[n] == params.last());
            }
        }
    }
}

/// Characters other than quote, backslash and those below U+0020 are written as themselves.
pub proof fn lemma_json_escaped_plain(s: Seq<char>)
    requires
        forall|i: int| 0 <= i < s.len() ==> #[trigger] s[i] != '"' && s[i] != '\\' && (s[i] as u32) >= 0x20,
    ensures
        json_escaped(s) == s,
    decreases s.len(),
{
    if s.len() > 0 {
        let f = s.drop_last();
        assert forall|i: int| 0 <= i < f.len() implies #[trigger] f[i] != '"' && f[i] != '\\' && (f[i] as u32) >= 0x20 by {
            assert(f[i] == s[i]);
        }
        lemma_json_escaped_plain(f);
        assert(s[s.len() - 1] != '"');
        assert(f + seq![s.last()] =~= s);
    }
}

/// Escaping works character by character: the escape of two strings joined is the two
/// escapes joined.
pub proof fn lemma_json_escaped_concat(a: Seq<char>, b: Seq<char>)
    ensures
        json_escaped(a + b) == json_escaped(a) + json_escaped(b),
    decreases b.len(),
{
    if b.len() == 0 {
        assert(a + b =~= a);
        assert(json_escaped(a) + json_escaped(b) =~= json_escaped(a));
    } else {
        lemma_json_escaped_concat(a, b.drop_last());
        assert((a + b).drop_last() =~= a + b.drop_last());
        assert((a + b).last() == b.last());
        assert(json_escaped(a) + json_escaped(b) =~= json_escaped(a) + json_escaped(b.drop_last()) + json_escape_char(b.last()));
    }
}

/// A failure in `json` format is a JSON object on standard output whose `filename` and `rule`
/// members hold the file name and the slug, each quoted; in any other format it is the file
/// name, `: ` and the slug on standard error.
pub proof fn lemma_failure_report_shape(filename: Seq<char>, rule_slug: Seq<char>, output_format: Seq<char>)
    ensures
        output_format == "json"@ ==> spec_failure_report(filename, rule_slug, output_format) == (
            true,
            "{\"filename\":"@ + seq!['"'] + json_escaped(filename) + seq!['"'] + ",\"rule\":"@ + seq!['"']
                + json_escaped(rule_slug) + seq!['"'] + "}"@,
        ),
        output_format != "json"@ ==> spec_failure_report(filename, rule_slug, output_format) == (
            false,
            filename + ": "@ + rule_slug,
        ),
{
    if output_format == "json"@ {
        let r = spec_failure_report(filename, rule_slug, output_format).1;
        assert(r =~= "{\"filename\":"@ + seq!['"'] + json_escaped(filename) + seq!['"'] + ",\"rule\":"@ + seq!['"']
            + json_escaped(rule_slug) + seq!['"'] + "}"@);
    }
}

} // verus!
