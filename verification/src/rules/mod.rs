//! The naming rules: what each check accepts, how a rule's parameter selects its check,
//! and the table of built-in rules.
use vstd::prelude::*;
use crate::text::{normalize, normalized_equals, str_equals};
use crate::path::opt_view;

pub use crate::path::{file_extension, file_stem};

pub mod ascii_alphanumeric;
pub mod ascii_an;
pub mod nfc;
pub mod no_combining;
pub mod posix_portable;
pub mod trimmed;
pub mod url_component_safe;
pub mod url_safe;
pub mod whitespace;

verus! {

/// The view of an optional owned parameter.
pub open spec fn param_view(p: Option<String>) -> Option<Seq<char>> {
    match p {
        Some(s) => Some(s@),
        None => None,
    }
}

/// The parameter, or `default` when it was not given.
pub open spec fn param_or(p: Option<Seq<char>>, default: Seq<char>) -> Seq<char> {
    match p {
        Some(s) => s,
        None => default,
    }
}

/// The words that switch a rule off.
pub open spec fn is_disable_word(w: Seq<char>) -> bool {
    ||| w == "off"@
    ||| w == "false"@
    ||| w == "0"@
    ||| w == "disable"@
    ||| w == "disabled"@
}

/// A parameter switches its rule off when, trimmed and ASCII lower-cased, it is one of
/// `off`, `false`, `0`, `disable`, `disabled`; an absent parameter switches nothing off.
pub open spec fn spec_rule_disabled(param: Option<Seq<char>>) -> bool {
    match param {
        Some(raw) => is_disable_word(normalize(raw)),
        None => false,
    }
}

/// Whether a rule parameter switches the rule off.
pub fn is_rule_disabled_param(param: Option<&str>) -> (r: bool)
    ensures
        r == spec_rule_disabled(opt_view(param)),
{
    match param {
        None => false,
        Some(raw) => {
            normalized_equals(raw, "off") || normalized_equals(raw, "false") || normalized_equals(
                raw,
                "0",
            ) || normalized_equals(raw, "disable") || normalized_equals(raw, "disabled")
        },
    }
}

/// Borrows the text of an optional owned parameter.
pub fn param_as_str(param: &Option<String>) -> (r: Option<&str>)
    ensures
        opt_view(r) == param_view(*param),
{
    match param {
        Some(s) => Some(s.as_str()),
        None => None,
    }
}

/// A compiled check: the test that an enabled rule applies to each name.
#[derive(Clone, Copy, Debug, PartialEq, Eq, Structural)]
pub enum RuleCheck {
    Nfc,
    NoCombining,
    TrimmedBase,
    TrimmedExt,
    TrimmedBoth,
    WhitespaceNone,
    WhitespaceSpace,
    WhitespaceSpaces,
    WhitespaceAny,
    PosixPortable,
    UrlSafe,
    UrlComponentSafe,
    AsciiAnBase,
    AsciiAnExt,
    AsciiAnBoth,
    AsciiAlphanumericBase,
    AsciiAlphanumericExt,
    AsciiAlphanumericOn,
}

/// The compiled check of an enabled rule.
pub type RuleCheckFn = RuleCheck;

impl RuleCheck {
    /// Whether this check accepts the name `s`.
    pub open spec fn accepts(self, s: Seq<char>) -> bool {
        match self {
            RuleCheck::Nfc => nfc::is_nfc_text(s),
            RuleCheck::NoCombining => no_combining::spec_no_combining(s),
            RuleCheck::TrimmedBase => trimmed::spec_trimmed_base(s),
            RuleCheck::TrimmedExt => trimmed::spec_trimmed_ext(s),
            RuleCheck::TrimmedBoth => trimmed::spec_trimmed_both(s),
            RuleCheck::WhitespaceNone => whitespace::spec_whitespace_none(s),
            RuleCheck::WhitespaceSpace => whitespace::spec_whitespace_space(s),
            RuleCheck::WhitespaceSpaces => whitespace::spec_whitespace_spaces(s),
            RuleCheck::WhitespaceAny => true,
            RuleCheck::PosixPortable => posix_portable::spec_posix_portable(s),
            RuleCheck::UrlSafe => url_safe::spec_url_safe(s),
            RuleCheck::UrlComponentSafe => url_component_safe::spec_url_component_safe(s),
            RuleCheck::AsciiAnBase => ascii_an::spec_ascii_an_base(s),
            RuleCheck::AsciiAnExt => ascii_an::spec_ascii_an_ext(s),
            RuleCheck::AsciiAnBoth => ascii_an::spec_ascii_an_both(s),
            RuleCheck::AsciiAlphanumericBase => ascii_alphanumeric::spec_ascii_alphanumeric_base(s),
            RuleCheck::AsciiAlphanumericExt => ascii_alphanumeric::spec_ascii_alphanumeric_ext(s),
            RuleCheck::AsciiAlphanumericOn => ascii_alphanumeric::spec_ascii_alphanumeric_on(s),
        }
    }

    /// Applies the check to a name.
    pub fn check(&self, input: &str) -> (r: bool)
        ensures
            r == self.accepts(input@),
    {
        match self {
            RuleCheck::Nfc => nfc::nfc(input),
            RuleCheck::NoCombining => no_combining::no_combining(input),
            RuleCheck::TrimmedBase => trimmed::trimmed_base(input),
            RuleCheck::TrimmedExt => trimmed::trimmed_ext(input),
            RuleCheck::TrimmedBoth => trimmed::trimmed_both(input),
            RuleCheck::WhitespaceNone => whitespace::whitespace_none(input),
            RuleCheck::WhitespaceSpace => whitespace::whitespace_space(input),
            RuleCheck::WhitespaceSpaces => whitespace::whitespace_spaces(input),
            RuleCheck::WhitespaceAny => true,
            RuleCheck::PosixPortable => posix_portable::posix_portable(input),
            RuleCheck::UrlSafe => url_safe::url_safe(input),
            RuleCheck::UrlComponentSafe => url_component_safe::url_component_safe(input),
            RuleCheck::AsciiAnBase => ascii_an::ascii_an_base(input),
            RuleCheck::AsciiAnExt => ascii_an::ascii_an_ext(input),
            RuleCheck::AsciiAnBoth => ascii_an::ascii_an_both(input),
            RuleCheck::AsciiAlphanumericBase => ascii_alphanumeric::ascii_alphanumeric_base(input),
            RuleCheck::AsciiAlphanumericExt => ascii_alphanumeric::ascii_alphanumeric_ext(input),
            RuleCheck::AsciiAlphanumericOn => ascii_alphanumeric::ascii_alphanumeric_on(input),
        }
    }
}


/// Which rule a parameter is compiled for: each builds that rule's check from a parameter.
#[derive(Clone, Copy, Debug, PartialEq, Eq, Structural)]
pub enum RuleBuilder {
    Nfc,
    NoCombining,
    Trimmed,
    Whitespace,
    PosixPortable,
    UrlSafe,
    UrlComponentSafe,
    AsciiAn,
    AsciiAlphanumeric,
}

/// The compiler of a rule's check.
pub type RuleCheckBuilderFn = RuleBuilder;

impl RuleBuilder {
    /// The check that this rule compiles for a parameter, if any.
    pub open spec fn builds(self, param: Option<Seq<char>>) -> Option<RuleCheck> {
        match self {
            RuleBuilder::Nfc => nfc::spec_nfc_builder(param),
            RuleBuilder::NoCombining => no_combining::spec_no_combining_builder(param),
            RuleBuilder::Trimmed => trimmed::spec_trimmed_builder(param),
            RuleBuilder::Whitespace => whitespace::spec_whitespace_builder(param),
            RuleBuilder::PosixPortable => posix_portable::spec_posix_portable_builder(param),
            RuleBuilder::UrlSafe => url_safe::spec_url_safe_builder(param),
            RuleBuilder::UrlComponentSafe => url_component_safe::spec_url_component_safe_builder(param),
            RuleBuilder::AsciiAn => ascii_an::spec_ascii_an_builder(param),
            RuleBuilder::AsciiAlphanumeric => ascii_alphanumeric::spec_ascii_alphanumeric_builder(param),
        }
    }

    /// Compiles this rule's check for a parameter.
    pub fn build(&self, param: Option<String>) -> (r: Option<RuleCheck>)
        ensures
            r == self.builds(param_view(param)),
    {
        match self {
            RuleBuilder::Nfc => nfc::nfc_builder(param),
            RuleBuilder::NoCombining => no_combining::no_combining_builder(param),
            RuleBuilder::Trimmed => trimmed::trimmed_builder(param),
            RuleBuilder::Whitespace => whitespace::whitespace_builder(param),
            RuleBuilder::PosixPortable => posix_portable::posix_portable_builder(param),
            RuleBuilder::UrlSafe => url_safe::url_safe_builder(param),
            RuleBuilder::UrlComponentSafe => url_component_safe::url_component_safe_builder(param),
            RuleBuilder::AsciiAn => ascii_an::ascii_an_builder(param),
            RuleBuilder::AsciiAlphanumeric => ascii_alphanumeric::ascii_alphanumeric_builder(param),
        }
    }
}

/// A rule as the command line offers it.
#[derive(Clone, Copy, Debug)]
pub struct RuleSpec {
    pub slug: &'static str,
    /// The value to use if the parameter was not specified at all.
    pub no_arg: &'static str,
    /// The value to use if the rule is enabled but the parameter is explicitly missing (e.g. --slug=value without =value).
    pub missing_value: &'static str,
    pub values: &'static [&'static str],
    pub short_description: &'static str,
    pub long_description_markdown: &'static str,
    pub check: RuleBuilder,
}

/// The views of a list of string slices.
pub open spec fn str_views(v: Seq<&'static str>) -> Seq<Seq<char>> {
    v.map_values(|x: &'static str| x@)
}

/// The fields of a rule, each by its view.
pub open spec fn has_fields(
    r: RuleSpec,
    slug: Seq<char>,
    no_arg: Seq<char>,
    missing_value: Seq<char>,
    values: Seq<Seq<char>>,
    short_description: Seq<char>,
    long_description_markdown: Seq<char>,
    check: RuleBuilder,
) -> bool {
    &&& r.slug@ == slug
    &&& r.no_arg@ == no_arg
    &&& r.missing_value@ == missing_value
    &&& str_views(r.values@) == values
    &&& r.short_description@ == short_description
    &&& r.long_description_markdown@ == long_description_markdown
    &&& r.check == check
}

impl RuleSpec {
    /// Compiles the rule for `param` and applies it to `value`: nothing when the parameter
    /// compiles to no check.
    pub fn run(&self, value: &str, param: Option<String>) -> (r: Option<bool>)
        ensures
            r == match self.check.builds(param_view(param)) {
                Some(c) => Some(c.accepts(value@)),
                None => None,
            },
    {
        let checker = self.check.build(param)?;
        Some(checker.check(value))
    }
}


/// The built-in rules, in the order the command line lists them.
pub fn builtin_rules() -> (r: Vec<RuleSpec>)
    ensures
        r@.len() == 9,
        nfc::is_rule(r@[0]),
        no_combining::is_rule(r@[1]),
        trimmed::is_rule(r@[2]),
        whitespace::is_rule(r@[3]),
        posix_portable::is_rule(r@[4]),
        url_safe::is_rule(r@[5]),
        url_component_safe::is_rule(r@[6]),
        ascii_an::is_rule(r@[7]),
        ascii_alphanumeric::is_rule(r@[8]),
{
    vec![
        nfc::rule(),
        no_combining::rule(),
        trimmed::rule(),
        whitespace::rule(),
        posix_portable::rule(),
        url_safe::rule(),
        url_component_safe::rule(),
        ascii_an::rule(),
        ascii_alphanumeric::rule(),
    ]
}

/// The slugs of the built-in rules.
pub open spec fn builtin_slugs() -> Seq<Seq<char>> {
    seq![
        "nfc"@,
        "no_combining"@,
        "trimmed"@,
        "whitespace"@,
        "posix_portable"@,
        "url_safe"@,
        "url_component_safe"@,
        "ascii_an"@,
        "ascii_alphanumeric"@,
    ]
}

/// No two built-in rules share a slug.
pub proof fn lemma_builtin_slugs_distinct()
    ensures
        forall|i: int, j: int|
            0 <= i < j < builtin_slugs().len() ==> #[trigger] builtin_slugs()[i] != #[trigger] builtin_slugs()[j],
{
    reveal_strlit("nfc");
    reveal_strlit("no_combining");
    reveal_strlit("trimmed");
    reveal_strlit("whitespace");
    reveal_strlit("posix_portable");
    reveal_strlit("url_safe");
    reveal_strlit("url_component_safe");
    reveal_strlit("ascii_an");
    reveal_strlit("ascii_alphanumeric");
    let s = builtin_slugs();
    assert forall|i: int, j: int| 0 <= i < j < s.len() implies #[trigger] s[i] != #[trigger] s[j] by {
        if s[i].len() == s[j].len() {
            assert(s[i][0] != s[j][0] || s[i][1] != s[j][1] || s[i][2] != s[j][2]
                || s[i][4] != s[j][4]);
        }
    }
}

/// Rules looked up by slug; no two hold the same slug.
pub struct RuleTable {
    rules: Vec<RuleSpec>,
}

impl View for RuleTable {
    type V = Map<Seq<char>, RuleSpec>;

    /// The rule with each slug.
    closed spec fn view(&self) -> Map<Seq<char>, RuleSpec> {
        Map::new(
            |k: Seq<char>| exists|i: int| 0 <= i < self.rules@.len() && #[trigger] self.rules@[i].slug@ == k,
            |k: Seq<char>| self.rules@[choose|i: int| 0 <= i < self.rules@.len() && #[trigger] self.rules@[i].slug@ == k],
        )
    }
}

impl RuleTable {
    #[verifier::type_invariant]
    spec fn slugs_distinct(self) -> bool {
        forall|i: int, j: int|
            0 <= i < j < self.rules@.len() ==> #[trigger] self.rules@[i].slug@ != #[trigger] self.rules@[j].slug@
    }

    /// The rule with this slug, if any.
    pub fn get(&self, slug: &str) -> (r: Option<RuleSpec>)
        ensures
            r == (if self@.contains_key(slug@) {
                Some(self@[slug@])
            } else {
                None
            }),
    {
        proof {
            use_type_invariant(self);
        }
        let n = self.rules.len();
        let mut i: usize = 0;
        while i < n
            invariant
                i <= n,
                n == self.rules@.len(),
                forall|k: int| 0 <= k < i ==> #[trigger] self.rules@[k].slug@ != slug@,
            decreases n - i,
        {
            if str_equals(self.rules[i].slug, slug) {
                proof {
                    use_type_invariant(self);
                    assert(self.rules@[i as int].slug@ == slug@);
                    assert(self@.contains_key(slug@));
                    let k = choose|k: int| 0 <= k < self.rules@.len() && #[trigger] self.rules@[k].slug@ == slug@;
                    if k != i as int {
                        if k < i as int {
                            assert(self.rules@[k].slug@ != slug@);
                        } else {
                            assert(self.rules@[i as int].slug@ != self.rules@[k].slug@);
                        }
                    }
                }
                return Some(self.rules[i]);
            }
            i = i + 1;
        }
        None
    }

    /// The number of rules.
    pub fn len(&self) -> (r: usize)
        ensures
            r == self@.len(),
    {
        proof {
            use_type_invariant(self);
            lemma_distinct_slug_count(self.rules@);
        }
        self.rules.len()
    }
}

/// With distinct slugs, the slug map has one key per rule.
proof fn lemma_distinct_slug_count(rules: Seq<RuleSpec>)
    requires
        forall|i: int, j: int| 0 <= i < j < rules.len() ==> #[trigger] rules[i].slug@ != #[trigger] rules[j].slug@,
    ensures
        Set::new(|k: Seq<char>| exists|i: int| 0 <= i < rules.len() && #[trigger] rules[i].slug@ == k).len() == rules.len(),
        Set::new(|k: Seq<char>| exists|i: int| 0 <= i < rules.len() && #[trigger] rules[i].slug@ == k).finite(),
    decreases rules.len(),
{
    let keys = Set::new(|k: Seq<char>| exists|i: int| 0 <= i < rules.len() && #[trigger] rules[i].slug@ == k);
    if rules.len() == 0 {
        assert(keys =~= Set::empty());
    } else {
        let front = rules.drop_last();
        let fkeys = Set::new(|k: Seq<char>| exists|i: int| 0 <= i < front.len() && #[trigger] front[i].slug@ == k);
        assert forall|i: int, j: int| 0 <= i < j < front.len() implies #[trigger] front[i].slug@ != #[trigger] front[j].slug@ by {
            assert(front[i] == rules[i] && front[j] == rules[j]);
        }
        lemma_distinct_slug_count(front);
        let last = rules.last().slug@;
        assert forall|k: Seq<char>| #[trigger] keys.contains(k) <==> fkeys.insert(last).contains(k) by {
            if keys.contains(k) {
                let i = choose|i: int| 0 <= i < rules.len() && #[trigger] rules[i].slug@ == k;
                if i < rules.len() - 1 {
                    assert(front[i] == rules[i]);
                }
            }
            if fkeys.contains(k) {
                let i = choose|i: int| 0 <= i < front.len() && #[trigger] front[i].slug@ == k;
                assert(front[i] == rules[i]);
            }
        }
        assert(keys =~= fkeys.insert(last));
        if fkeys.contains(last) {
            let i = choose|i: int| 0 <= i < front.len() && #[trigger] front[i].slug@ == last;
            assert(front[i] == rules[i]);
            assert(rules[i].slug@ != rules[rules.len() - 1].slug@);
        }
    }
}

/// The built-in rules, by slug.
pub fn builtin_rules_by_slug() -> (r: RuleTable)
    ensures
        r@.dom() == builtin_slugs().to_set(),
        nfc::is_rule(r@["nfc"@]),
        no_combining::is_rule(r@["no_combining"@]),
        trimmed::is_rule(r@["trimmed"@]),
        whitespace::is_rule(r@["whitespace"@]),
        posix_portable::is_rule(r@["posix_portable"@]),
        url_safe::is_rule(r@["url_safe"@]),
        url_component_safe::is_rule(r@["url_component_safe"@]),
        ascii_an::is_rule(r@["ascii_an"@]),
        ascii_alphanumeric::is_rule(r@["ascii_alphanumeric"@]),
{
    let rules = builtin_rules();
    proof {
        lemma_builtin_slugs_distinct();
        assert forall|i: int| 0 <= i < 9 implies #[trigger] rules@[i].slug@ == builtin_slugs()[i] by {}
    }
    let r = RuleTable { rules };
    proof {
        let m = r@;
        assert forall|i: int| 0 <= i < 9 implies m.contains_key(#[trigger] builtin_slugs()[i]) && m[builtin_slugs()[i]] == rules@[i] by {
            assert(rules@[i].slug@ == builtin_slugs()[i]);
            let k = choose|k: int| 0 <= k < rules@.len() && #[trigger] rules@[k].slug@ == builtin_slugs()[i];
            if k != i {
                assert(rules@[k].slug@ == builtin_slugs()[k]);
            }
        }
        assert forall|k: Seq<char>| #[trigger] m.dom().contains(k) <==> builtin_slugs().to_set().contains(k) by {
            if m.dom().contains(k) {
                let i = choose|i: int| 0 <= i < rules@.len() && #[trigger] rules@[i].slug@ == k;
                assert(builtin_slugs()[i] == k);
            }
            if builtin_slugs().to_set().contains(k) {
                let i = choose|i: int| 0 <= i < 9 && builtin_slugs()[i] == k;
                assert(m.contains_key(builtin_slugs()[i]));
            }
        }
        assert(m.dom() =~= builtin_slugs().to_set());
        assert(m["nfc"@] == rules@[0]) by { assert(builtin_slugs()[0] == "nfc"@); }
        assert(m["no_combining"@] == rules@[1]) by { assert(builtin_slugs()[1] == "no_combining"@); }
        assert(m["trimmed"@] == rules@[2]) by { assert(builtin_slugs()[2] == "trimmed"@); }
        assert(m["whitespace"@] == rules@[3]) by { assert(builtin_slugs()[3] == "whitespace"@); }
        assert(m["posix_portable"@] == rules@[4]) by { assert(builtin_slugs()[4] == "posix_portable"@); }
        assert(m["url_safe"@] == rules@[5]) by { assert(builtin_slugs()[5] == "url_safe"@); }
        assert(m["url_component_safe"@] == rules@[6]) by { assert(builtin_slugs()[6] == "url_component_safe"@); }
        assert(m["ascii_an"@] == rules@[7]) by { assert(builtin_slugs()[7] == "ascii_an"@); }
        assert(m["ascii_alphanumeric"@] == rules@[8]) by { assert(builtin_slugs()[8] == "ascii_alphanumeric"@); }
    }
    r
}

/// Rule parameters are read trimmed and without regard to ASCII case: two parameters with the
/// same normalized form compile to the same check, whatever the rule.
pub proof fn lemma_builds_by_normalized_param(b: RuleBuilder, p: Seq<char>, q: Seq<char>)
    requires
        normalize(p) == normalize(q),
    ensures
        b.builds(Some(p)) == b.builds(Some(q)),
{
}

/// A parameter that switches a rule off compiles to no check, whatever the rule.
pub proof fn lemma_disabled_param_builds_nothing(b: RuleBuilder, param: Option<Seq<char>>)
    requires
        spec_rule_disabled(param),
    ensures
        b.builds(param) is None,
{
}


/// Each compiled check applies exactly its rule's test, and `any` accepts every name.
pub proof fn lemma_checks_apply_their_rules(s: Seq<char>)
    ensures
        RuleCheck::Nfc.accepts(s) == nfc::is_nfc_text(s),
        RuleCheck::NoCombining.accepts(s) == no_combining::spec_no_combining(s),
        RuleCheck::TrimmedBase.accepts(s) == trimmed::spec_trimmed_base(s),
        RuleCheck::TrimmedExt.accepts(s) == trimmed::spec_trimmed_ext(s),
        RuleCheck::TrimmedBoth.accepts(s) == trimmed::spec_trimmed_both(s),
        RuleCheck::WhitespaceNone.accepts(s) == whitespace::spec_whitespace_none(s),
        RuleCheck::WhitespaceSpace.accepts(s) == whitespace::spec_whitespace_space(s),
        RuleCheck::WhitespaceSpaces.accepts(s) == whitespace::spec_whitespace_spaces(s),
        RuleCheck::WhitespaceAny.accepts(s),
        RuleCheck::PosixPortable.accepts(s) == posix_portable::spec_posix_portable(s),
        RuleCheck::UrlSafe.accepts(s) == url_safe::spec_url_safe(s),
        RuleCheck::UrlComponentSafe.accepts(s) == url_component_safe::spec_url_component_safe(s),
        RuleCheck::AsciiAnBase.accepts(s) == ascii_an::spec_ascii_an_base(s),
        RuleCheck::AsciiAnExt.accepts(s) == ascii_an::spec_ascii_an_ext(s),
        RuleCheck::AsciiAnBoth.accepts(s) == ascii_an::spec_ascii_an_both(s),
        RuleCheck::AsciiAlphanumericBase.accepts(s) == ascii_alphanumeric::spec_ascii_alphanumeric_base(s),
        RuleCheck::AsciiAlphanumericExt.accepts(s) == ascii_alphanumeric::spec_ascii_alphanumeric_ext(s),
        RuleCheck::AsciiAlphanumericOn.accepts(s) == ascii_alphanumeric::spec_ascii_alphanumeric_on(s),
{
}

/// Exactly the words `off`, `false`, `0`, `disable` and `disabled`, with any surrounding white
/// space and in any ASCII case, switch a rule off; an absent parameter never does.
pub proof fn lemma_disabling_words(raw: Seq<char>)
    ensures
        !spec_rule_disabled(None),
        spec_rule_disabled(Some(raw)) <==> {
            let w = crate::text::ascii_lower(crate::text::trim(raw));
            w == "off"@ || w == "false"@ || w == "0"@ || w == "disable"@ || w == "disabled"@
        },
{
}

/// The mode words, read trimmed and in any ASCII case, select the checks: without a parameter
/// each rule takes its default mode, and a rule that is switched off compiles to nothing.
pub proof fn lemma_mode_words(p: Seq<char>)
    ensures
        !spec_rule_disabled(Some(p)) ==> {
            let m = normalize(p);
            &&& RuleBuilder::Nfc.builds(Some(p)) == Some(RuleCheck::Nfc)
            &&& RuleBuilder::NoCombining.builds(Some(p)) == Some(RuleCheck::NoCombining)
            &&& RuleBuilder::PosixPortable.builds(Some(p)) == Some(RuleCheck::PosixPortable)
            &&& RuleBuilder::UrlSafe.builds(Some(p)) == Some(RuleCheck::UrlSafe)
            &&& RuleBuilder::UrlComponentSafe.builds(Some(p)) == Some(RuleCheck::UrlComponentSafe)
            &&& m == "base"@ ==> RuleBuilder::Trimmed.builds(Some(p)) == Some(RuleCheck::TrimmedBase)
            &&& m == "ext"@ ==> RuleBuilder::Trimmed.builds(Some(p)) == Some(RuleCheck::TrimmedExt)
            &&& m == "both"@ ==> RuleBuilder::Trimmed.builds(Some(p)) == Some(RuleCheck::TrimmedBoth)
            &&& m == "none"@ ==> RuleBuilder::Whitespace.builds(Some(p)) == Some(RuleCheck::WhitespaceNone)
            &&& m == "space"@ ==> RuleBuilder::Whitespace.builds(Some(p)) == Some(RuleCheck::WhitespaceSpace)
            &&& m == "spaces"@ ==> RuleBuilder::Whitespace.builds(Some(p)) == Some(RuleCheck::WhitespaceSpaces)
            &&& m == "any"@ ==> RuleBuilder::Whitespace.builds(Some(p)) == Some(RuleCheck::WhitespaceAny)
            &&& m == "base"@ ==> RuleBuilder::AsciiAn.builds(Some(p)) == Some(RuleCheck::AsciiAnBase)
            &&& m == "ext"@ ==> RuleBuilder::AsciiAn.builds(Some(p)) == Some(RuleCheck::AsciiAnExt)
            &&& m == "both"@ ==> RuleBuilder::AsciiAn.builds(Some(p)) == Some(RuleCheck::AsciiAnBoth)
            &&& m == "base"@ ==> RuleBuilder::AsciiAlphanumeric.builds(Some(p)) == Some(RuleCheck::AsciiAlphanumericBase)
            &&& m == "ext"@ ==> RuleBuilder::AsciiAlphanumeric.builds(Some(p)) == Some(RuleCheck::AsciiAlphanumericExt)
            &&& m == "on"@ ==> RuleBuilder::AsciiAlphanumeric.builds(Some(p)) == Some(RuleCheck::AsciiAlphanumericOn)
        },
        RuleBuilder::Nfc.builds(None) == Some(RuleCheck::Nfc),
        RuleBuilder::NoCombining.builds(None) == Some(RuleCheck::NoCombining),
        RuleBuilder::PosixPortable.builds(None) == Some(RuleCheck::PosixPortable),
        RuleBuilder::UrlSafe.builds(None) == Some(RuleCheck::UrlSafe),
        RuleBuilder::UrlComponentSafe.builds(None) == Some(RuleCheck::UrlComponentSafe),
        RuleBuilder::Trimmed.builds(None) == RuleBuilder::Trimmed.builds(Some("both"@)),
        RuleBuilder::Whitespace.builds(None) == RuleBuilder::Whitespace.builds(Some("none"@)),
        RuleBuilder::AsciiAn.builds(None) == RuleBuilder::AsciiAn.builds(Some("both"@)),
        RuleBuilder::AsciiAlphanumeric.builds(None) == RuleBuilder::AsciiAlphanumeric.builds(Some("on"@)),
{
    reveal_strlit("off");
    reveal_strlit("false");
    reveal_strlit("0");
    reveal_strlit("disable");
    reveal_strlit("disabled");
    reveal_strlit("both");
    reveal_strlit("none");
    reveal_strlit("on");
    reveal_strlit("base");
    reveal_strlit("ext");
    reveal_strlit("space");
    reveal_strlit("spaces");
    reveal_strlit("any");
    assert("both"@ != "base"@) by {
        assert("both"@[1] != "base"@[1]);
    }
    assert("ext"@.len() == 3 && "base"@.len() == 4 && "both"@.len() == 4 && "on"@.len() == 2);
    assert("space"@.len() == 5 && "none"@.len() == 4 && "spaces"@.len() == 6 && "any"@.len() == 3);
    assert("ext"@ != "base"@ && "ext"@ != "both"@ && "on"@ != "base"@ && "on"@ != "ext"@);
    assert("space"@ != "none"@ && "spaces"@ != "none"@ && "spaces"@ != "space"@);
    assert("any"@ != "none"@ && "any"@ != "space"@ && "any"@ != "spaces"@);
    assert(normalize("both"@) == "both"@) by {
        crate::text::lemma_trim_fixed("both"@);
        assert(crate::text::ascii_lower("both"@) =~= "both"@);
    }
    assert(normalize("none"@) == "none"@) by {
        crate::text::lemma_trim_fixed("none"@);
        assert(crate::text::ascii_lower("none"@) =~= "none"@);
    }
    assert(normalize("on"@) == "on"@) by {
        crate::text::lemma_trim_fixed("on"@);
        assert(crate::text::ascii_lower("on"@) =~= "on"@);
    }
}

} // verus!
