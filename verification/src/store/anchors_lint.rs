//! Linting the anchor map: issue records and their severity order.

use vstd::multiset::Multiset;
use vstd::prelude::*;

use super::anchors::{decode_json_string_list, decode_string_list_spec};
use super::anchor_cycles::{is_cycle_min, parent_cycle_anchors};
use crate::text::{lemma_lex_irreflexive, lemma_lex_total, lemma_lex_transitive, lex_less, lex_lt};
use super::error::StoreError;
use crate::text::{
    seqs, sort_dedup, sorted_strict, strs, append_str, chars_eq, chars_eq_str, chars_of, lower_seq, string_of, to_ascii_lower, trim_seq,
    trim_str,
};

verus! {

broadcast use vstd::string::group_string_axioms;

#[derive(Clone, Debug)]
pub struct AnchorsLintIssue {
    pub code: String,
    pub severity: String,
    pub anchor: String,
    pub message: String,
    pub hint: String,
}

/// An issue as its five texts: code, severity, anchor, message, hint.
pub type IssueView = (Seq<char>, Seq<char>, Seq<char>, Seq<char>, Seq<char>);

pub open spec fn issue_view(i: AnchorsLintIssue) -> IssueView {
    (i.code@, i.severity@, i.anchor@, i.message@, i.hint@)
}

pub open spec fn issues_view(s: Seq<AnchorsLintIssue>) -> Seq<IssueView> {
    s.map_values(|i: AnchorsLintIssue| issue_view(i))
}

/// Errors first, then warnings, then anything else.
pub open spec fn severity_rank_spec(severity: Seq<char>) -> i32 {
    let s = lower_seq(trim_seq(severity));
    if s == "error"@ {
        0
    } else if s == "warning"@ {
        1
    } else {
        2
    }
}

pub fn severity_rank(severity: &str) -> (r: i32)
    ensures
        r == severity_rank_spec(severity@),
{
    let s = to_ascii_lower(trim_str(severity).as_slice());
    if chars_eq_str(s.as_slice(), "error") {
        0
    } else if chars_eq_str(s.as_slice(), "warning") {
        1
    } else {
        2
    }
}

/// Appends an issue with the given fields.
pub fn push_issue(
    issues: &mut Vec<AnchorsLintIssue>,
    code: &str,
    severity: &str,
    anchor: &str,
    message: String,
    hint: &str,
)
    ensures
        issues_view(final(issues)@) == issues_view(old(issues)@).push(
            (code@, severity@, anchor@, message@, hint@),
        ),
        final(issues)@.len() == old(issues)@.len() + 1,
        final(issues)@.take(old(issues)@.len() as int) == old(issues)@,
        final(issues)@.last().code@ == code@,
        final(issues)@.last().severity@ == severity@,
        final(issues)@.last().anchor@ == anchor@,
        final(issues)@.last().message@ == message@,
        final(issues)@.last().hint@ == hint@,
{
    let ghost before = issues@;
    issues.push(
        AnchorsLintIssue {
            code: string_of(crate::text::chars_of(code).as_slice()),
            severity: string_of(crate::text::chars_of(severity).as_slice()),
            anchor: string_of(crate::text::chars_of(anchor).as_slice()),
            message,
            hint: string_of(crate::text::chars_of(hint).as_slice()),
        },
    );
    assert(issues@.take(before.len() as int) =~= before);
    assert(issues_view(issues@) =~= issues_view(before).push(
        (code@, severity@, anchor@, message@, hint@),
    ));
}

/// The most issues one lint call returns.
pub const MAX_LINT_LIMIT: usize = 200;

/// An anchor as the lint reads it.
#[derive(Debug)]
pub struct LintAnchor {
    pub id: String,
    pub parent_id: Option<String>,
    pub depends_on_json: Option<String>,
    pub status: String,
}

/// One row of the alias table: `alias_id` redirects to `anchor_id`.
#[derive(Debug)]
pub struct AnchorAlias {
    pub alias_id: String,
    pub anchor_id: String,
}

/// The issues of one page, and whether more were found.
#[derive(Debug)]
pub struct AnchorsLintResult {
    pub issues: Vec<AnchorsLintIssue>,
    pub has_more: bool,
}

/// `x` is the id of one of the anchors.
pub open spec fn is_anchor_id(anchors: Seq<LintAnchor>, x: Seq<char>) -> bool {
    exists|i: int| 0 <= i < anchors.len() && #[trigger] anchors[i].id@ == x
}

/// The anchor an alias redirects to: the last row for it wins, as in a map filled row by row.
pub open spec fn alias_owner(aliases: Seq<AnchorAlias>, x: Seq<char>) -> Option<Seq<char>>
    decreases aliases.len(),
{
    if aliases.len() == 0 {
        None
    } else if aliases.last().alias_id@ == x {
        Some(aliases.last().anchor_id@)
    } else {
        alias_owner(aliases.drop_last(), x)
    }
}

/// Row `i` is the last row for its alias id.
pub open spec fn is_last_alias(aliases: Seq<AnchorAlias>, i: int) -> bool {
    forall|j: int| i < j < aliases.len() ==> #[trigger] aliases[j].alias_id@ != aliases[i].alias_id@
}

/// The issues of all parts, one after another.
pub open spec fn concat_issues(parts: Seq<Seq<IssueView>>) -> Seq<IssueView>
    decreases parts.len(),
{
    if parts.len() == 0 {
        Seq::empty()
    } else {
        concat_issues(parts.drop_last()) + parts.last()
    }
}

pub open spec fn one_if(b: bool, v: IssueView) -> Seq<IssueView> {
    if b {
        seq![v]
    } else {
        Seq::empty()
    }
}

/// What is wrong with alias row `i`, counted once per alias id: it points to no anchor, or
/// it is itself the id of an anchor.
pub open spec fn alias_issues_at(anchors: Seq<LintAnchor>, aliases: Seq<AnchorAlias>, i: int) -> Seq<IssueView> {
    let a = aliases[i];
    if !is_last_alias(aliases, i) {
        Seq::empty()
    } else {
        one_if(
            !is_anchor_id(anchors, a.anchor_id@),
            (
                "ALIAS_DANGLING"@,
                "error"@,
                a.alias_id@,
                "alias "@ + a.alias_id@ + " points to missing anchor "@ + a.anchor_id@,
                "Fix: re-create the missing anchor or remove the dangling alias mapping."@,
            ),
        ) + one_if(
            is_anchor_id(anchors, a.alias_id@),
            (
                "ALIAS_COLLIDES_WITH_ANCHOR_ID"@,
                "warning"@,
                a.alias_id@,
                "alias "@ + a.alias_id@ + " collides with an anchor id"@,
                "Fix: rename the alias or rename the anchor id to avoid ambiguity."@,
            ),
        )
    }
}

pub open spec fn alias_issues(anchors: Seq<LintAnchor>, aliases: Seq<AnchorAlias>) -> Seq<IssueView> {
    concat_issues(Seq::new(aliases.len(), |i: int| alias_issues_at(anchors, aliases, i)))
}

pub fn has_anchor_id(anchors: &[LintAnchor], x: &str) -> (r: bool)
    ensures
        r == is_anchor_id(anchors@, x@),
{
    let xv = chars_of(x);
    let mut i: usize = 0;
    while i < anchors.len()
        invariant
            i <= anchors@.len(),
            xv@ == x@,
            forall|k: int| 0 <= k < i ==> #[trigger] anchors@[k].id@ != x@,
        decreases anchors@.len() - i,
    {
        let idv = chars_of(anchors[i].id.as_str());
        if chars_eq(idv.as_slice(), xv.as_slice()) {
            assert(anchors@[i as int].id@ == x@);
            return true;
        }
        i = i + 1;
    }
    false
}

proof fn lemma_alias_owner_take(aliases: Seq<AnchorAlias>, i: int, x: Seq<char>)
    requires
        0 < i <= aliases.len(),
    ensures
        alias_owner(aliases.take(i), x) == if aliases[i - 1].alias_id@ == x {
            Some(aliases[i - 1].anchor_id@)
        } else {
            alias_owner(aliases.take(i - 1), x)
        },
{
    assert(aliases.take(i).drop_last() =~= aliases.take(i - 1));
}

/// The row that says where `x` redirects to, if any.
fn find_alias_owner(aliases: &[AnchorAlias], x: &str) -> (r: Option<usize>)
    ensures
        match r {
            None => alias_owner(aliases@, x@) is None,
            Some(k) => k < aliases@.len() && alias_owner(aliases@, x@) == Some(aliases@[k as int].anchor_id@),
        },
{
    let xv = chars_of(x);
    let mut i: usize = aliases.len();
    assert(aliases@.take(aliases@.len() as int) =~= aliases@);
    while i > 0
        invariant
            i <= aliases@.len(),
            xv@ == x@,
            alias_owner(aliases@, x@) == alias_owner(aliases@.take(i as int), x@),
        decreases i,
    {
        proof {
            lemma_alias_owner_take(aliases@, i as int, x@);
        }
        let av = chars_of(aliases[i - 1].alias_id.as_str());
        if chars_eq(av.as_slice(), xv.as_slice()) {
            return Some(i - 1);
        }
        i = i - 1;
    }
    assert(aliases@.take(0) =~= Seq::<AnchorAlias>::empty());
    None
}

fn is_last_alias_row(aliases: &[AnchorAlias], i: usize) -> (r: bool)
    requires
        i < aliases@.len(),
    ensures
        r == is_last_alias(aliases@, i as int),
{
    let me = chars_of(aliases[i].alias_id.as_str());
    let mut j: usize = i + 1;
    while j < aliases.len()
        invariant
            i < j <= aliases@.len(),
            me@ == aliases@[i as int].alias_id@,
            forall|k: int| i < k < j ==> #[trigger] aliases@[k].alias_id@ != aliases@[i as int].alias_id@,
        decreases aliases@.len() - j,
    {
        let other = chars_of(aliases[j].alias_id.as_str());
        if chars_eq(other.as_slice(), me.as_slice()) {
            return false;
        }
        j = j + 1;
    }
    true
}

fn concat3(a: &str, b: &str, c: &str) -> (r: String)
    ensures
        r@ == a@ + b@ + c@,
{
    let mut out: Vec<char> = Vec::new();
    append_str(&mut out, a);
    append_str(&mut out, b);
    append_str(&mut out, c);
    string_of(out.as_slice())
}

fn concat4(a: &str, b: &str, c: &str, d: &str) -> (r: String)
    ensures
        r@ == a@ + b@ + c@ + d@,
{
    let mut out: Vec<char> = Vec::new();
    append_str(&mut out, a);
    append_str(&mut out, b);
    append_str(&mut out, c);
    append_str(&mut out, d);
    string_of(out.as_slice())
}

fn concat5(a: &str, b: &str, c: &str, d: &str, e: &str) -> (r: String)
    ensures
        r@ == a@ + b@ + c@ + d@ + e@,
{
    let mut out: Vec<char> = Vec::new();
    append_str(&mut out, a);
    append_str(&mut out, b);
    append_str(&mut out, c);
    append_str(&mut out, d);
    append_str(&mut out, e);
    string_of(out.as_slice())
}

/// Appends the alias issues, row by row.
fn lint_aliases(anchors: &[LintAnchor], aliases: &[AnchorAlias], issues: &mut Vec<AnchorsLintIssue>)
    ensures
        issues_view(final(issues)@) == issues_view(old(issues)@) + alias_issues(anchors@, aliases@),
{
    let ghost f = |k: int| alias_issues_at(anchors@, aliases@, k);
    let mut i: usize = 0;
    assert(Seq::new(0, f) =~= Seq::<Seq<IssueView>>::empty());
    assert(issues_view(issues@) =~= issues_view(old(issues)@) + concat_issues(Seq::new(0, f)));
    while i < aliases.len()
        invariant
            i <= aliases@.len(),
            f == (|k: int| alias_issues_at(anchors@, aliases@, k)),
            issues_view(issues@) == issues_view(old(issues)@) + concat_issues(Seq::new(i as nat, f)),
        decreases aliases@.len() - i,
    {
        let ghost before = issues_view(issues@);
        let a = &aliases[i];
        if is_last_alias_row(aliases, i) {
            if !has_anchor_id(anchors, a.anchor_id.as_str()) {
                let msg = concat4("alias ", a.alias_id.as_str(), " points to missing anchor ", a.anchor_id.as_str());
                push_issue(
                    issues,
                    "ALIAS_DANGLING",
                    "error",
                    a.alias_id.as_str(),
                    msg,
                    "Fix: re-create the missing anchor or remove the dangling alias mapping.",
                );
            }
            let ghost mid = issues_view(issues@);
            if has_anchor_id(anchors, a.alias_id.as_str()) {
                let msg = concat3("alias ", a.alias_id.as_str(), " collides with an anchor id");
                push_issue(
                    issues,
                    "ALIAS_COLLIDES_WITH_ANCHOR_ID",
                    "warning",
                    a.alias_id.as_str(),
                    msg,
                    "Fix: rename the alias or rename the anchor id to avoid ambiguity.",
                );
            }
            assert(issues_view(issues@) =~= before + f(i as int));
        } else {
            assert(f(i as int) =~= Seq::<IssueView>::empty());
            assert(issues_view(issues@) =~= before + f(i as int));
        }
        assert(Seq::new((i + 1) as nat, f).drop_last() =~= Seq::new(i as nat, f));
        assert(Seq::new((i + 1) as nat, f).last() == f(i as int));
        i = i + 1;
    }
}

/// What is wrong with an anchor's parent: itself, directly or through an alias; an alias
/// used where the canonical id belongs; or no anchor at all.
pub open spec fn parent_issues(anchors: Seq<LintAnchor>, aliases: Seq<AnchorAlias>, a: LintAnchor) -> Seq<IssueView> {
    let id = a.id@;
    match a.parent_id {
        None => Seq::empty(),
        Some(ps) => {
            let p = ps@;
            if p == id {
                seq![
                    (
                        "SELF_PARENT"@,
                        "error"@,
                        id,
                        "parent_id must not equal anchor id"@,
                        "Fix: clear parent_id or point it at a different canonical anchor."@,
                    ),
                ]
            } else if is_anchor_id(anchors, p) {
                Seq::empty()
            } else {
                match alias_owner(aliases, p) {
                    Some(o) => if o == id {
                        seq![
                            (
                                "SELF_PARENT"@,
                                "error"@,
                                id,
                                "parent_id "@ + p + " resolves back to "@ + id + " via alias mapping"@,
                                "Fix: clear parent_id or point it at a different canonical anchor."@,
                            ),
                        ]
                    } else {
                        seq![
                            (
                                "RELATION_USES_ALIAS"@,
                                "warning"@,
                                id,
                                "parent_id "@ + p + " is an alias for "@ + o,
                                "Fix: rewrite relations to use canonical ids (anchors_rename/anchors_merge keep aliases for history only)."@,
                            ),
                        ]
                    },
                    None => seq![
                        (
                            "UNKNOWN_PARENT"@,
                            "error"@,
                            id,
                            "parent_id "@ + p + " is not a known anchor id"@,
                            "Fix: create the missing anchor, or update parent_id to an existing anchor."@,
                        ),
                    ],
                }
            }
        },
    }
}

/// What is wrong with one entry `d` of the dependencies of anchor `id`, as for the parent.
pub open spec fn dep_issues(anchors: Seq<LintAnchor>, aliases: Seq<AnchorAlias>, id: Seq<char>, d: Seq<char>) -> Seq<IssueView> {
    if d == id {
        seq![
            (
                "SELF_DEPENDS_ON"@,
                "error"@,
                id,
                "depends_on must not include self"@,
                "Fix: remove the self reference from depends_on."@,
            ),
        ]
    } else if is_anchor_id(anchors, d) {
        Seq::empty()
    } else {
        match alias_owner(aliases, d) {
            Some(o) => if o == id {
                seq![
                    (
                        "SELF_DEPENDS_ON"@,
                        "error"@,
                        id,
                        "depends_on "@ + d + " resolves back to "@ + id + " via alias mapping"@,
                        "Fix: remove the self reference from depends_on."@,
                    ),
                ]
            } else {
                seq![
                    (
                        "RELATION_USES_ALIAS"@,
                        "warning"@,
                        id,
                        "depends_on "@ + d + " is an alias for "@ + o,
                        "Fix: rewrite relations to use canonical ids (aliases are for history preservation)."@,
                    ),
                ]
            },
            None => seq![
                (
                    "UNKNOWN_DEPENDS_ON"@,
                    "error"@,
                    id,
                    "depends_on "@ + d + " is not a known anchor id"@,
                    "Fix: create the missing anchor, or update depends_on to existing anchors."@,
                ),
            ],
        }
    }
}

pub open spec fn deps_issues(anchors: Seq<LintAnchor>, aliases: Seq<AnchorAlias>, id: Seq<char>, deps: Seq<Seq<char>>) -> Seq<IssueView> {
    concat_issues(Seq::new(deps.len(), |k: int| dep_issues(anchors, aliases, id, deps[k])))
}

/// An anchor that is not deprecated and that nothing links to (by its id or an alias).
pub open spec fn orphan_issues(a: LintAnchor, linked: bool) -> Seq<IssueView> {
    one_if(
        lower_seq(trim_seq(a.status@)) != "deprecated"@ && !linked,
        (
            "ORPHAN_ANCHOR"@,
            "warning"@,
            a.id@,
            "anchor has no linked artifacts (no cards tagged with this id or its aliases)"@,
            "Fix: attach at least one decision/evidence/test to this anchor, or merge/deprecate it."@,
        ),
    )
}

/// The stored dependency list of an anchor, read back.
pub open spec fn anchor_deps(a: LintAnchor) -> Result<Seq<Seq<char>>, Seq<char>> {
    decode_string_list_spec(
        match a.depends_on_json {
            Some(s) => Some(s@),
            None => None,
        },
    )
}

pub open spec fn anchor_issues(
    anchors: Seq<LintAnchor>,
    aliases: Seq<AnchorAlias>,
    a: LintAnchor,
    deps: Seq<Seq<char>>,
    linked: bool,
) -> Seq<IssueView> {
    parent_issues(anchors, aliases, a) + deps_issues(anchors, aliases, a.id@, deps) + orphan_issues(
        a,
        linked,
    )
}

fn copy_opt(o: &Option<String>) -> (r: Option<String>)
    ensures
        match (o, r) {
            (Some(a), Some(b)) => a@ == b@,
            (None, None) => true,
            _ => false,
        },
{
    match o {
        Some(s) => Some(string_of(chars_of(s.as_str()).as_slice())),
        None => None,
    }
}

/// Appends the issues of one dependency entry.
fn lint_dep(
    anchors: &[LintAnchor],
    aliases: &[AnchorAlias],
    id: &str,
    d: &str,
    issues: &mut Vec<AnchorsLintIssue>,
)
    ensures
        issues_view(final(issues)@) == issues_view(old(issues)@) + dep_issues(anchors@, aliases@, id@, d@),
{
    let idv = chars_of(id);
    if chars_eq_str(idv.as_slice(), d) {
        push_issue(
            issues,
            "SELF_DEPENDS_ON",
            "error",
            id,
            concat3("depends_on must not include self", "", ""),
            "Fix: remove the self reference from depends_on.",
        );
        proof {
            reveal_strlit("");
            assert("depends_on must not include self"@ + ""@ + ""@ =~= "depends_on must not include self"@);
        }
        return;
    }
    if has_anchor_id(anchors, d) {
        assert(issues_view(issues@) =~= issues_view(old(issues)@) + Seq::<IssueView>::empty());
        return;
    }
    match find_alias_owner(aliases, d) {
        Some(k) => {
            let o = aliases[k].anchor_id.as_str();
            let ov = chars_of(o);
            if chars_eq(ov.as_slice(), idv.as_slice()) {
                push_issue(
                    issues,
                    "SELF_DEPENDS_ON",
                    "error",
                    id,
                    concat5("depends_on ", d, " resolves back to ", id, " via alias mapping"),
                    "Fix: remove the self reference from depends_on.",
                );
            } else {
                push_issue(
                    issues,
                    "RELATION_USES_ALIAS",
                    "warning",
                    id,
                    concat4("depends_on ", d, " is an alias for ", o),
                    "Fix: rewrite relations to use canonical ids (aliases are for history preservation).",
                );
            }
        },
        None => {
            push_issue(
                issues,
                "UNKNOWN_DEPENDS_ON",
                "error",
                id,
                concat3("depends_on ", d, " is not a known anchor id"),
                "Fix: create the missing anchor, or update depends_on to existing anchors.",
            );
        },
    }
}

/// Appends the issues of an anchor's parent.
fn lint_parent(
    anchors: &[LintAnchor],
    aliases: &[AnchorAlias],
    a: &LintAnchor,
    issues: &mut Vec<AnchorsLintIssue>,
)
    ensures
        issues_view(final(issues)@) == issues_view(old(issues)@) + parent_issues(anchors@, aliases@, *a),
{
    let id = a.id.as_str();
    let p = match &a.parent_id {
        None => {
            assert(issues_view(issues@) =~= issues_view(old(issues)@) + Seq::<IssueView>::empty());
            return;
        },
        Some(p) => p.as_str(),
    };
    let idv = chars_of(id);
    if chars_eq_str(idv.as_slice(), p) {
        push_issue(
            issues,
            "SELF_PARENT",
            "error",
            id,
            concat3("parent_id must not equal anchor id", "", ""),
            "Fix: clear parent_id or point it at a different canonical anchor.",
        );
        proof {
            reveal_strlit("");
            assert("parent_id must not equal anchor id"@ + ""@ + ""@ =~= "parent_id must not equal anchor id"@);
        }
        return;
    }
    if has_anchor_id(anchors, p) {
        assert(issues_view(issues@) =~= issues_view(old(issues)@) + Seq::<IssueView>::empty());
        return;
    }
    match find_alias_owner(aliases, p) {
        Some(k) => {
            let o = aliases[k].anchor_id.as_str();
            let ov = chars_of(o);
            if chars_eq(ov.as_slice(), idv.as_slice()) {
                push_issue(
                    issues,
                    "SELF_PARENT",
                    "error",
                    id,
                    concat5("parent_id ", p, " resolves back to ", id, " via alias mapping"),
                    "Fix: clear parent_id or point it at a different canonical anchor.",
                );
            } else {
                push_issue(
                    issues,
                    "RELATION_USES_ALIAS",
                    "warning",
                    id,
                    concat4("parent_id ", p, " is an alias for ", o),
                    "Fix: rewrite relations to use canonical ids (anchors_rename/anchors_merge keep aliases for history only).",
                );
            }
        },
        None => {
            push_issue(
                issues,
                "UNKNOWN_PARENT",
                "error",
                id,
                concat3("parent_id ", p, " is not a known anchor id"),
                "Fix: create the missing anchor, or update parent_id to an existing anchor.",
            );
        },
    }
}

/// Appends the issues of one anchor, given whether anything links to it; fails when its
/// stored dependency list cannot be read.
fn lint_anchor(
    anchors: &[LintAnchor],
    aliases: &[AnchorAlias],
    a: &LintAnchor,
    linked: bool,
    issues: &mut Vec<AnchorsLintIssue>,
) -> (r: Result<(), StoreError>)
    ensures
        match anchor_deps(*a) {
            Ok(deps) => r is Ok && issues_view(final(issues)@) == issues_view(old(issues)@)
                + anchor_issues(anchors@, aliases@, *a, deps, linked),
            Err(m) => r matches Err(StoreError::InvalidInput(e)) && e@ == m,
        },
{
    lint_parent(anchors, aliases, a, issues);
    let ghost after_parent = issues_view(issues@);
    let deps = match decode_json_string_list(copy_opt(&a.depends_on_json)) {
        Ok(v) => v,
        Err(e) => {
            return Err(e);
        },
    };
    let ghost dv = strs(deps@);
    let ghost id = a.id@;
    let ghost g = |k: int| dep_issues(anchors@, aliases@, id, dv[k]);
    let mut k: usize = 0;
    assert(Seq::new(0, g) =~= Seq::<Seq<IssueView>>::empty());
    assert(issues_view(issues@) =~= after_parent + concat_issues(Seq::new(0, g)));
    while k < deps.len()
        invariant
            k <= deps@.len(),
            dv == strs(deps@),
            id == a.id@,
            g == (|k: int| dep_issues(anchors@, aliases@, id, dv[k])),
            issues_view(issues@) == after_parent + concat_issues(Seq::new(k as nat, g)),
        decreases deps@.len() - k,
    {
        let ghost before = issues_view(issues@);
        lint_dep(anchors, aliases, a.id.as_str(), deps[k].as_str(), issues);
        assert(Seq::new((k + 1) as nat, g).drop_last() =~= Seq::new(k as nat, g));
        assert(Seq::new((k + 1) as nat, g).last() == g(k as int));
        k = k + 1;
    }
    assert(Seq::new(deps@.len(), g) =~= Seq::new(dv.len(), |k: int| dep_issues(anchors@, aliases@, id, dv[k])));
    let ghost after_deps = issues_view(issues@);
    let st = to_ascii_lower(trim_str(a.status.as_str()).as_slice());
    if !chars_eq_str(st.as_slice(), "deprecated") && !linked {
        push_issue(
            issues,
            "ORPHAN_ANCHOR",
            "warning",
            a.id.as_str(),
            concat3("anchor has no linked artifacts (no cards tagged with this id or its aliases)", "", ""),
            "Fix: attach at least one decision/evidence/test to this anchor, or merge/deprecate it.",
        );
        proof {
            reveal_strlit("");
            assert("anchor has no linked artifacts (no cards tagged with this id or its aliases)"@ + ""@ + ""@
                =~= "anchor has no linked artifacts (no cards tagged with this id or its aliases)"@);
        }
    }
    assert(issues_view(issues@) =~= issues_view(old(issues)@) + anchor_issues(anchors@, aliases@, *a, dv, linked));
    Ok(())
}

/// The issues of every anchor, in order.
pub open spec fn anchors_issues(anchors: Seq<LintAnchor>, aliases: Seq<AnchorAlias>, linked: Seq<bool>) -> Seq<IssueView> {
    concat_issues(
        Seq::new(
            anchors.len(),
            |i: int| anchor_issues(anchors, aliases, anchors[i], anchor_deps(anchors[i])->Ok_0, linked[i]),
        ),
    )
}

/// Every anchor's stored dependency list can be read.
pub open spec fn all_deps_readable(anchors: Seq<LintAnchor>) -> bool {
    forall|i: int| 0 <= i < anchors.len() ==> #[trigger] anchor_deps(anchors[i]) is Ok
}

proof fn lemma_concat_contains(parts: Seq<Seq<IssueView>>, k: int, v: IssueView)
    requires
        0 <= k < parts.len(),
        parts[k].contains(v),
    ensures
        concat_issues(parts).contains(v),
    decreases parts.len(),
{
    let c = concat_issues(parts.drop_last());
    let l = parts.last();
    assert(concat_issues(parts) == c + l);
    if k == parts.len() - 1 {
        let j = choose|j: int| 0 <= j < l.len() && l[j] == v;
        assert((c + l)[c.len() + j] == v);
    } else {
        assert(parts.drop_last()[k] == parts[k]);
        lemma_concat_contains(parts.drop_last(), k, v);
        let j = choose|j: int| 0 <= j < c.len() && c[j] == v;
        assert((c + l)[j] == v);
    }
}

/// An anchor that depends on an alias of itself (an id that is no anchor, whose alias row
/// leads back to the anchor) is reported with a SELF_DEPENDS_ON error naming the alias, as a
/// dependency on itself would be; it is not taken for a mere use of an alias.
pub proof fn lemma_self_dependency_via_alias(
    anchors: Seq<LintAnchor>,
    aliases: Seq<AnchorAlias>,
    linked: Seq<bool>,
    i: int,
    k: int,
)
    requires
        linked.len() == anchors.len(),
        0 <= i < anchors.len(),
        anchor_deps(anchors[i]) is Ok,
        0 <= k < anchor_deps(anchors[i])->Ok_0.len(),
        !is_anchor_id(anchors, anchor_deps(anchors[i])->Ok_0[k]),
        alias_owner(aliases, anchor_deps(anchors[i])->Ok_0[k]) == Some(anchors[i].id@),
    ensures
        ({
            let id = anchors[i].id@;
            let d = anchor_deps(anchors[i])->Ok_0[k];
            lint_count(
                anchors,
                aliases,
                linked,
                (
                    "SELF_DEPENDS_ON"@,
                    "error"@,
                    id,
                    "depends_on "@ + d + " resolves back to "@ + id + " via alias mapping"@,
                    "Fix: remove the self reference from depends_on."@,
                ),
            ) >= 1
        }),
{
    broadcast use vstd::seq_lib::group_to_multiset_ensures;

    let a = anchors[i];
    let id = a.id@;
    let deps = anchor_deps(a)->Ok_0;
    let d = deps[k];
    let v = (
        "SELF_DEPENDS_ON"@,
        "error"@,
        id,
        "depends_on "@ + d + " resolves back to "@ + id + " via alias mapping"@,
        "Fix: remove the self reference from depends_on."@,
    );
    assert(is_anchor_id(anchors, id));
    assert(d != id);
    assert(dep_issues(anchors, aliases, id, d) == seq![v]);
    assert(seq![v][0] == v);
    let dparts = Seq::new(deps.len(), |q: int| dep_issues(anchors, aliases, id, deps[q]));
    assert(dparts[k].contains(v));
    lemma_concat_contains(dparts, k, v);
    let di = deps_issues(anchors, aliases, id, deps);
    let pi = parent_issues(anchors, aliases, a);
    let oi = orphan_issues(a, linked[i]);
    let ai = anchor_issues(anchors, aliases, a, deps, linked[i]);
    assert(ai == pi + di + oi);
    let j = choose|j: int| 0 <= j < di.len() && di[j] == v;
    assert(ai[pi.len() + j] == v);
    let aparts = Seq::new(
        anchors.len(),
        |q: int| anchor_issues(anchors, aliases, anchors[q], anchor_deps(anchors[q])->Ok_0, linked[q]),
    );
    assert(aparts[i] == ai);
    assert(aparts[i].contains(v));
    lemma_concat_contains(aparts, i, v);
    let all_i = anchors_issues(anchors, aliases, linked);
    let al = alias_issues(anchors, aliases);
    let j2 = choose|j2: int| 0 <= j2 < all_i.len() && all_i[j2] == v;
    assert((al + all_i)[al.len() + j2] == v);
    assert((al + all_i).contains(v));
}

/// An anchor whose parent is an alias of itself (an id that is no anchor, whose alias row leads
/// back to the anchor) is reported with a SELF_PARENT error naming the alias.
pub proof fn lemma_self_parent_via_alias(anchors: Seq<LintAnchor>, aliases: Seq<AnchorAlias>, linked: Seq<bool>, i: int)
    requires
        linked.len() == anchors.len(),
        0 <= i < anchors.len(),
        anchor_deps(anchors[i]) is Ok,
        anchors[i].parent_id is Some,
        !is_anchor_id(anchors, anchors[i].parent_id->0@),
        alias_owner(aliases, anchors[i].parent_id->0@) == Some(anchors[i].id@),
    ensures
        ({
            let id = anchors[i].id@;
            let p = anchors[i].parent_id->0@;
            lint_count(
                anchors,
                aliases,
                linked,
                (
                    "SELF_PARENT"@,
                    "error"@,
                    id,
                    "parent_id "@ + p + " resolves back to "@ + id + " via alias mapping"@,
                    "Fix: clear parent_id or point it at a different canonical anchor."@,
                ),
            ) >= 1
        }),
{
    broadcast use vstd::seq_lib::group_to_multiset_ensures;

    let a = anchors[i];
    let id = a.id@;
    let p = a.parent_id->0@;
    let deps = anchor_deps(a)->Ok_0;
    let v = (
        "SELF_PARENT"@,
        "error"@,
        id,
        "parent_id "@ + p + " resolves back to "@ + id + " via alias mapping"@,
        "Fix: clear parent_id or point it at a different canonical anchor."@,
    );
    assert(is_anchor_id(anchors, id));
    assert(p != id);
    let pi = parent_issues(anchors, aliases, a);
    assert(pi == seq![v]);
    let di = deps_issues(anchors, aliases, id, deps);
    let oi = orphan_issues(a, linked[i]);
    let ai = anchor_issues(anchors, aliases, a, deps, linked[i]);
    assert(ai == pi + di + oi);
    assert(ai[0] == v);
    let aparts = Seq::new(
        anchors.len(),
        |q: int| anchor_issues(anchors, aliases, anchors[q], anchor_deps(anchors[q])->Ok_0, linked[q]),
    );
    assert(aparts[i] == ai);
    assert(aparts[i].contains(v));
    lemma_concat_contains(aparts, i, v);
    let all_i = anchors_issues(anchors, aliases, linked);
    let al = alias_issues(anchors, aliases);
    let j2 = choose|j2: int| 0 <= j2 < all_i.len() && all_i[j2] == v;
    assert((al + all_i)[al.len() + j2] == v);
    assert((al + all_i).contains(v));
}

/// The issue that reports the parent cycle whose smallest anchor is `m`.
pub open spec fn cycle_issue(m: Seq<char>) -> IssueView {
    (
        "PARENT_CYCLE"@,
        "error"@,
        m,
        "parent_id cycle detected"@,
        "Fix: break the cycle by clearing or rewriting parent_id on one of the anchors."@,
    )
}

/// The smallest anchors of the parent cycles.
pub open spec fn cycle_mins(anchors: Seq<LintAnchor>) -> Set<Seq<char>> {
    Set::new(|m: Seq<char>| is_cycle_min(anchors, m))
}

/// How often issue `v` is found: among the alias and anchor issues, plus once if it reports
/// a parent cycle.
pub open spec fn lint_count(anchors: Seq<LintAnchor>, aliases: Seq<AnchorAlias>, linked: Seq<bool>, v: IssueView) -> nat {
    (alias_issues(anchors, aliases) + anchors_issues(anchors, aliases, linked)).to_multiset().count(v)
        + if v == cycle_issue(v.2) && is_cycle_min(anchors, v.2) {
        1nat
    } else {
        0nat
    }
}

/// How many issues are found in all.
pub open spec fn lint_total(anchors: Seq<LintAnchor>, aliases: Seq<AnchorAlias>, linked: Seq<bool>) -> nat {
    (alias_issues(anchors, aliases) + anchors_issues(anchors, aliases, linked)).len() + cycle_mins(
        anchors,
    ).len()
}

/// Appends the issues of every anchor; fails on the first stored dependency list that cannot
/// be read.
fn lint_all_anchors(
    anchors: &[LintAnchor],
    aliases: &[AnchorAlias],
    linked: &[bool],
    issues: &mut Vec<AnchorsLintIssue>,
) -> (r: Result<(), StoreError>)
    requires
        linked@.len() == anchors@.len(),
    ensures
        all_deps_readable(anchors@) ==> r is Ok && issues_view(final(issues)@) == issues_view(
            old(issues)@,
        ) + anchors_issues(anchors@, aliases@, linked@),
        !all_deps_readable(anchors@) ==> (r matches Err(StoreError::InvalidInput(e)) && e@
            == "stored anchor list is invalid json"@),
{
    let ghost f = |i: int|
        anchor_issues(anchors@, aliases@, anchors@[i], anchor_deps(anchors@[i])->Ok_0, linked@[i]);
    let mut i: usize = 0;
    assert(Seq::new(0, f) =~= Seq::<Seq<IssueView>>::empty());
    assert(issues_view(issues@) =~= issues_view(old(issues)@) + concat_issues(Seq::new(0, f)));
    while i < anchors.len()
        invariant
            i <= anchors@.len(),
            linked@.len() == anchors@.len(),
            f == (|i: int|
                anchor_issues(anchors@, aliases@, anchors@[i], anchor_deps(anchors@[i])->Ok_0, linked@[i])),
            forall|k: int| 0 <= k < i ==> #[trigger] anchor_deps(anchors@[k]) is Ok,
            issues_view(issues@) == issues_view(old(issues)@) + concat_issues(Seq::new(i as nat, f)),
        decreases anchors@.len() - i,
    {
        let r = lint_anchor(anchors, aliases, &anchors[i], linked[i], issues);
        if r.is_err() {
            proof {
                assert(anchor_deps(anchors@[i as int]) is Err);
            }
            return r;
        }
        assert(Seq::new((i + 1) as nat, f).drop_last() =~= Seq::new(i as nat, f));
        assert(Seq::new((i + 1) as nat, f).last() == f(i as int));
        i = i + 1;
    }
    Ok(())
}

/// The issues reporting the cycles whose smallest anchors are listed.
pub open spec fn cycle_issues(c: Seq<Seq<char>>) -> Seq<IssueView> {
    c.map_values(|m: Seq<char>| cycle_issue(m))
}

/// Appends one cycle issue for each smallest anchor of a parent cycle.
fn lint_cycles(anchors: &[LintAnchor], issues: &mut Vec<AnchorsLintIssue>)
    ensures
        exists|c: Seq<Seq<char>>|
            {
                &&& c.no_duplicates()
                &&& forall|m: Seq<char>| #[trigger] c.contains(m) <==> is_cycle_min(anchors@, m)
                &&& issues_view(final(issues)@) == issues_view(old(issues)@) + cycle_issues(c)
            },
{
    let mins = parent_cycle_anchors(anchors);
    let ghost c = seqs(mins@);
    let mut i: usize = 0;
    assert(cycle_issues(c.take(0)) =~= Seq::<IssueView>::empty());
    assert(issues_view(issues@) =~= issues_view(old(issues)@) + cycle_issues(c.take(0)));
    while i < mins.len()
        invariant
            i <= mins@.len(),
            c == seqs(mins@),
            issues_view(issues@) == issues_view(old(issues)@) + cycle_issues(c.take(i as int)),
        decreases mins@.len() - i,
    {
        let m = string_of(mins[i].as_slice());
        push_issue(
            issues,
            "PARENT_CYCLE",
            "error",
            m.as_str(),
            concat3("parent_id cycle detected", "", ""),
            "Fix: break the cycle by clearing or rewriting parent_id on one of the anchors.",
        );
        proof {
            reveal_strlit("");
            assert("parent_id cycle detected"@ + ""@ + ""@ =~= "parent_id cycle detected"@);
            assert(cycle_issues(c.take(i + 1)) =~= cycle_issues(c.take(i as int)).push(cycle_issue(c[i as int])));
        }
        i = i + 1;
    }
    assert(c.take(mins@.len() as int) =~= c);
}

/// The order issues are listed in: by severity (errors first), then by code, anchor and
/// message, each compared in ASCII lower case.
pub open spec fn lint_key_lt(a: IssueView, b: IssueView) -> bool {
    let ra = severity_rank_spec(a.1);
    let rb = severity_rank_spec(b.1);
    let (ca, cb) = (lower_seq(a.0), lower_seq(b.0));
    let (aa, ab) = (lower_seq(a.2), lower_seq(b.2));
    let (ma, mb) = (lower_seq(a.3), lower_seq(b.3));
    ||| ra < rb
    ||| ra == rb && lex_lt(ca, cb)
    ||| ra == rb && ca == cb && lex_lt(aa, ab)
    ||| ra == rb && ca == cb && aa == ab && lex_lt(ma, mb)
}

/// Errors are listed before everything else, and warnings before anything that is neither
/// (severities read trimmed and in ASCII lower case); within one severity, by code, then
/// anchor, then message, each in ASCII lower case.
pub proof fn lemma_lint_severity_order(a: IssueView, b: IssueView)
    ensures
        lower_seq(trim_seq(a.1)) == "error"@ && lower_seq(trim_seq(b.1)) != "error"@ ==> lint_key_lt(a, b),
        lower_seq(trim_seq(a.1)) == "warning"@ && lower_seq(trim_seq(b.1)) != "error"@ && lower_seq(
            trim_seq(b.1),
        ) != "warning"@ ==> lint_key_lt(a, b),
        lower_seq(trim_seq(a.1)) == lower_seq(trim_seq(b.1)) ==> (lint_key_lt(a, b) <==> (lex_lt(
            lower_seq(a.0),
            lower_seq(b.0),
        ) || (lower_seq(a.0) == lower_seq(b.0) && lex_lt(lower_seq(a.2), lower_seq(b.2))) || (lower_seq(a.0)
            == lower_seq(b.0) && lower_seq(a.2) == lower_seq(b.2) && lex_lt(lower_seq(a.3), lower_seq(b.3))))),
{
    reveal_strlit("error");
    reveal_strlit("warning");
    assert("error"@[0] != "warning"@[0]);
}

/// No issue sorts before one listed ahead of it.
pub open spec fn issues_sorted(s: Seq<IssueView>) -> bool {
    forall|i: int, j: int| 0 <= i < j < s.len() ==> !lint_key_lt(#[trigger] s[j], #[trigger] s[i])
}

proof fn lemma_key_lt_trans(a: IssueView, b: IssueView, c: IssueView)
    requires
        lint_key_lt(a, b),
        lint_key_lt(b, c),
    ensures
        lint_key_lt(a, c),
{
    let (ca, cb, cc) = (lower_seq(a.0), lower_seq(b.0), lower_seq(c.0));
    let (aa, ab, ac) = (lower_seq(a.2), lower_seq(b.2), lower_seq(c.2));
    let (ma, mb, mc) = (lower_seq(a.3), lower_seq(b.3), lower_seq(c.3));
    if lex_lt(ca, cb) && lex_lt(cb, cc) {
        lemma_lex_transitive(ca, cb, cc);
    }
    if lex_lt(aa, ab) && lex_lt(ab, ac) {
        lemma_lex_transitive(aa, ab, ac);
    }
    if lex_lt(ma, mb) && lex_lt(mb, mc) {
        lemma_lex_transitive(ma, mb, mc);
    }
}

proof fn lemma_key_lt_total(a: IssueView, b: IssueView)
    ensures
        !lint_key_lt(a, b) && !lint_key_lt(b, a) ==> (forall|c: IssueView|
            lint_key_lt(c, a) == lint_key_lt(c, b)),
        !(lint_key_lt(a, b) && lint_key_lt(b, a)),
{
    lemma_lex_total(lower_seq(a.0), lower_seq(b.0));
    lemma_lex_total(lower_seq(a.2), lower_seq(b.2));
    lemma_lex_total(lower_seq(a.3), lower_seq(b.3));
}

/// `a <= b` and `b <= c` give `a <= c`, where `x <= y` means that `y` does not sort before `x`.
proof fn lemma_key_le_trans(a: IssueView, b: IssueView, c: IssueView)
    requires
        !lint_key_lt(b, a),
        !lint_key_lt(c, b),
    ensures
        !lint_key_lt(c, a),
{
    lemma_key_lt_total(a, b);
    if lint_key_lt(c, a) {
        if lint_key_lt(a, b) {
            lemma_key_lt_trans(c, a, b);
        }
    }
}

fn issue_lt(a: &AnchorsLintIssue, b: &AnchorsLintIssue) -> (r: bool)
    ensures
        r == lint_key_lt(issue_view(*a), issue_view(*b)),
{
    let ra = severity_rank(a.severity.as_str());
    let rb = severity_rank(b.severity.as_str());
    if ra != rb {
        return ra < rb;
    }
    let ca = to_ascii_lower(chars_of(a.code.as_str()).as_slice());
    let cb = to_ascii_lower(chars_of(b.code.as_str()).as_slice());
    if !chars_eq(ca.as_slice(), cb.as_slice()) {
        proof {
            lemma_lex_total(ca@, cb@);
        }
        return lex_less(ca.as_slice(), cb.as_slice());
    }
    let aa = to_ascii_lower(chars_of(a.anchor.as_str()).as_slice());
    let ab = to_ascii_lower(chars_of(b.anchor.as_str()).as_slice());
    if !chars_eq(aa.as_slice(), ab.as_slice()) {
        proof {
            lemma_lex_irreflexive(ca@);
            lemma_lex_total(aa@, ab@);
        }
        return lex_less(aa.as_slice(), ab.as_slice());
    }
    let ma = to_ascii_lower(chars_of(a.message.as_str()).as_slice());
    let mb = to_ascii_lower(chars_of(b.message.as_str()).as_slice());
    proof {
        lemma_lex_irreflexive(ca@);
        lemma_lex_irreflexive(aa@);
    }
    lex_less(ma.as_slice(), mb.as_slice())
}

/// Neither issue sorts before the other.
pub open spec fn key_eq(a: IssueView, b: IssueView) -> bool {
    !lint_key_lt(a, b) && !lint_key_lt(b, a)
}

/// `r` lists `s` in the listing order, with issues that compare equal in the order `s`
/// has them: `p` says where in `s` each issue of `r` stands.
pub open spec fn stable_order_by(r: Seq<IssueView>, s: Seq<IssueView>, p: Seq<int>) -> bool {
    &&& p.len() == r.len() == s.len()
    &&& forall|t: int| 0 <= t < p.len() ==> 0 <= #[trigger] p[t] < s.len() && r[t] == s[p[t]]
    &&& forall|a: int, b: int| 0 <= a < b < p.len() ==> #[trigger] p[a] != #[trigger] p[b]
    &&& issues_sorted(r)
    &&& forall|i: int, j: int| 0 <= i < j < r.len() && key_eq(#[trigger] r[i], #[trigger] r[j]) ==> p[i] < p[j]
}

/// `r` is the stable sort of `s` into the listing order.
pub open spec fn stable_sort_of(r: Seq<IssueView>, s: Seq<IssueView>) -> bool {
    exists|p: Seq<int>| stable_order_by(r, s, p)
}

/// Sorts issues into the listing order (an insertion sort: issues that compare equal keep
/// their relative order).
pub fn sort_issues(v: Vec<AnchorsLintIssue>) -> (r: Vec<AnchorsLintIssue>)
    ensures
        issues_view(r@).to_multiset() == issues_view(v@).to_multiset(),
        issues_sorted(issues_view(r@)),
        stable_sort_of(issues_view(r@), issues_view(v@)),
{
    broadcast use vstd::seq_lib::group_to_multiset_ensures, vstd::multiset::group_multiset_axioms;

    let ghost orig = issues_view(v@);
    let mut rest = v;
    let mut out: Vec<AnchorsLintIssue> = Vec::new();
    assert(issues_view(out@).to_multiset().len() == 0);
    assert(issues_view(out@).to_multiset() =~= Multiset::<IssueView>::empty());
    assert(issues_view(rest@).to_multiset().add(issues_view(out@).to_multiset()) =~= orig.to_multiset());
    let ghost mut idx: Seq<int> = Seq::empty();
    assert(issues_view(rest@) =~= orig.take(rest@.len() as int));
    while rest.len() > 0
        invariant
            issues_view(rest@).to_multiset().add(issues_view(out@).to_multiset()) == orig.to_multiset(),
            issues_sorted(issues_view(out@)),
            orig.len() == rest@.len() + out@.len(),
            issues_view(rest@) == orig.take(rest@.len() as int),
            idx.len() == out@.len(),
            forall|t: int|
                0 <= t < idx.len() ==> rest@.len() <= #[trigger] idx[t] < orig.len() && issues_view(out@)[t]
                    == orig[idx[t]],
            forall|a: int, b: int| 0 <= a < b < idx.len() ==> #[trigger] idx[a] != #[trigger] idx[b],
            forall|i: int, j: int|
                0 <= i < j < out@.len() && key_eq(#[trigger] issues_view(out@)[i], #[trigger] issues_view(out@)[j])
                    ==> idx[i] < idx[j],
        decreases rest@.len(),
    {
        let ghost before_rest = issues_view(rest@);
        let ghost old_idx = idx;
        let x = match rest.pop() {
            Some(x) => x,
            None => {
                return out;
            },
        };
        assert(before_rest =~= issues_view(rest@).push(issue_view(x)));
        let mut k: usize = 0;
        while k < out.len() && issue_lt(&out[k], &x)
            invariant
                k <= out@.len(),
                forall|t: int| 0 <= t < k ==> lint_key_lt(#[trigger] issues_view(out@)[t], issue_view(x)),
            decreases out@.len() - k,
        {
            k = k + 1;
        }
        let ghost old_out = issues_view(out@);
        out.insert(k, x);
        let ghost xv = issue_view(x);
        assert(issues_view(out@) =~= old_out.insert(k as int, xv));
        proof {
            let rn = rest@.len() as int;
            assert(before_rest =~= orig.take(rn + 1));
            assert(before_rest[rn] == xv);
            assert(orig.take(rn + 1)[rn] == orig[rn]);
            assert(xv == orig[rn]);
            assert(issues_view(rest@) =~= orig.take(rn));
            idx = old_idx.insert(k as int, rn);
            let no = issues_view(out@);
            assert forall|t: int| 0 <= t < idx.len() implies rest@.len() <= #[trigger] idx[t] < orig.len()
                && no[t] == orig[idx[t]] by {
                if t < k {
                    assert(idx[t] == old_idx[t]);
                } else if t > k {
                    assert(idx[t] == old_idx[t - 1]);
                }
            }
            assert forall|a: int, b: int| 0 <= a < b < idx.len() implies #[trigger] idx[a] != #[trigger] idx[b] by {
                if a < k && b < k {
                } else if a < k && b == k {
                    assert(old_idx[a] >= rn + 1);
                } else if a < k {
                    assert(idx[b] == old_idx[b - 1]);
                } else if a == k {
                    assert(idx[b] == old_idx[b - 1]);
                    assert(old_idx[b - 1] >= rn + 1);
                } else {
                    assert(idx[a] == old_idx[a - 1] && idx[b] == old_idx[b - 1]);
                }
            }
            assert forall|i: int, j: int|
                0 <= i < j < out@.len() && key_eq(#[trigger] no[i], #[trigger] no[j]) implies idx[i] < idx[j] by {
                if j < k {
                    assert(no[i] == old_out[i] && no[j] == old_out[j]);
                } else if j == k {
                    assert(no[i] == old_out[i]);
                    assert(lint_key_lt(old_out[i], xv));
                } else if i == k {
                    assert(idx[j] == old_idx[j - 1]);
                    assert(old_idx[j - 1] >= rn + 1);
                } else if i > k {
                    assert(no[i] == old_out[i - 1] && no[j] == old_out[j - 1]);
                    assert(idx[i] == old_idx[i - 1] && idx[j] == old_idx[j - 1]);
                } else {
                    assert(no[i] == old_out[i] && no[j] == old_out[j - 1]);
                    assert(idx[i] == old_idx[i] && idx[j] == old_idx[j - 1]);
                }
            }
        }
        proof {
            vstd::seq_lib::to_multiset_build(issues_view(rest@), xv);
            vstd::seq_lib::to_multiset_insert(old_out, k as int, xv);
        }
        assert(before_rest.to_multiset() =~= issues_view(rest@).to_multiset().insert(xv));
        assert(issues_view(out@).to_multiset() =~= old_out.to_multiset().insert(xv));
        assert(issues_view(rest@).to_multiset().add(issues_view(out@).to_multiset()) =~= before_rest.to_multiset().add(
            old_out.to_multiset(),
        ));
        proof {
            let no = issues_view(out@);
            assert forall|i: int, j: int| 0 <= i < j < no.len() implies !lint_key_lt(
                #[trigger] no[j],
                #[trigger] no[i],
            ) by {
                if j < k {
                    assert(no[i] == old_out[i] && no[j] == old_out[j]);
                } else if j == k {
                    assert(no[i] == old_out[i]);
                    lemma_key_lt_total(old_out[i], xv);
                } else if i > k {
                    assert(no[i] == old_out[i - 1] && no[j] == old_out[j - 1]);
                } else if i == k {
                    assert(no[j] == old_out[j - 1]);
                    assert(!lint_key_lt(old_out[k as int], xv));
                    if j - 1 > k {
                        lemma_key_le_trans(xv, old_out[k as int], old_out[j - 1]);
                    }
                } else {
                    assert(no[i] == old_out[i] && no[j] == old_out[j - 1]);
                }
            }
        }
    }
    assert(issues_view(rest@) =~= Seq::<IssueView>::empty());
    assert(issues_view(rest@).to_multiset().len() == 0);
    assert(issues_view(rest@).to_multiset() =~= Multiset::<IssueView>::empty());
    assert(issues_view(out@).to_multiset() =~= orig.to_multiset());
    assert(stable_order_by(issues_view(out@), orig, idx));
    out
}

proof fn lemma_cycle_issue_counts(anchors: Seq<LintAnchor>, c: Seq<Seq<char>>)
    requires
        c.no_duplicates(),
        forall|m: Seq<char>| #[trigger] c.contains(m) <==> is_cycle_min(anchors, m),
    ensures
        forall|v: IssueView| #[trigger] cycle_issues(c).to_multiset().count(v) == if v == cycle_issue(v.2)
            && is_cycle_min(anchors, v.2) {
            1nat
        } else {
            0nat
        },
        c.len() == cycle_mins(anchors).len(),
        cycle_mins(anchors).finite(),
{
    broadcast use vstd::seq_lib::group_to_multiset_ensures;

    let ci = cycle_issues(c);
    let f = |m: Seq<char>| cycle_issue(m);
    assert(vstd::relations::injective(f)) by {
        assert forall|x: Seq<char>, y: Seq<char>| #[trigger] f(x) == #[trigger] f(y) implies x == y by {
            assert(f(x).2 == x);
        }
    }
    c.lemma_no_duplicates_injective(f);
    ci.lemma_multiset_has_no_duplicates();
    assert forall|v: IssueView| #[trigger] ci.to_multiset().count(v) == if v == cycle_issue(v.2)
        && is_cycle_min(anchors, v.2) {
        1nat
    } else {
        0nat
    } by {
        if v == cycle_issue(v.2) && is_cycle_min(anchors, v.2) {
            assert(c.contains(v.2));
            let j = choose|j: int| 0 <= j < c.len() && c[j] == v.2;
            assert(ci[j] == v);
            assert(ci.contains(v));
        } else if ci.contains(v) {
            let j = choose|j: int| 0 <= j < ci.len() && ci[j] == v;
            assert(c.contains(c[j]));
        }
    }
    assert(c.to_set() =~= cycle_mins(anchors));
    c.unique_seq_to_set();
    vstd::seq_lib::seq_to_set_is_finite(c);
}

/// The ids to look links up for: the anchor's own and those of its aliases, sorted, once each.
pub fn lint_link_ids(id: &str, aliases: &[AnchorAlias]) -> (r: Vec<String>)
    ensures
        sorted_strict(strs(r@)),
        forall|x: Seq<char>| #[trigger] strs(r@).contains(x) <==> (x == id@ || exists|i: int|
            0 <= i < aliases@.len() && aliases@[i].anchor_id@ == id@ && #[trigger] aliases@[i].alias_id@ == x),
{
    let mut ids: Vec<Vec<char>> = Vec::new();
    let idv = chars_of(id);
    ids.push(chars_of(id));
    proof {
        assert(seqs(ids@) =~= seq![id@]);
        assert forall|x: Seq<char>| #[trigger] seqs(ids@).contains(x) <==> (x == id@ || exists|k: int|
            0 <= k < 0 && aliases@[k].anchor_id@ == id@ && #[trigger] aliases@[k].alias_id@ == x) by {
            if x == id@ {
                assert(seqs(ids@)[0] == x);
            }
        }
    }
    let mut i: usize = 0;
    while i < aliases.len()
        invariant
            i <= aliases@.len(),
            idv@ == id@,
            forall|x: Seq<char>| #[trigger] seqs(ids@).contains(x) <==> (x == id@ || exists|k: int|
                0 <= k < i && aliases@[k].anchor_id@ == id@ && #[trigger] aliases@[k].alias_id@ == x),
        decreases aliases@.len() - i,
    {
        let owner = chars_of(aliases[i].anchor_id.as_str());
        let ghost before = seqs(ids@);
        if chars_eq(owner.as_slice(), idv.as_slice()) {
            ids.push(chars_of(aliases[i].alias_id.as_str()));
            assert(seqs(ids@) =~= before.push(aliases@[i as int].alias_id@));
        }
        proof {
            let now = seqs(ids@);
            assert forall|x: Seq<char>| #[trigger] now.contains(x) implies (x == id@ || exists|k: int|
                0 <= k < i + 1 && aliases@[k].anchor_id@ == id@ && #[trigger] aliases@[k].alias_id@ == x) by {
                let w = choose|w: int| 0 <= w < now.len() && now[w] == x;
                if w < before.len() {
                    assert(before[w] == x);
                    assert(before.contains(x));
                }
            }
            assert forall|x: Seq<char>| (x == id@ || exists|k: int|
                0 <= k < i + 1 && aliases@[k].anchor_id@ == id@ && #[trigger] aliases@[k].alias_id@ == x)
                implies #[trigger] now.contains(x) by {
                if x == id@ {
                    assert(before.contains(x));
                    let w = choose|w: int| 0 <= w < before.len() && before[w] == x;
                    assert(now[w] == x);
                } else {
                    let k = choose|k: int| 0 <= k < i + 1 && aliases@[k].anchor_id@ == id@ && #[trigger] aliases@[k].alias_id@ == x;
                    if k < i {
                        assert(before.contains(x));
                        let w = choose|w: int| 0 <= w < before.len() && before[w] == x;
                        assert(now[w] == x);
                    } else {
                        assert(now[now.len() - 1] == x);
                    }
                }
            }
        }
        i = i + 1;
    }
    let sorted = sort_dedup(ids);
    let mut out: Vec<String> = Vec::new();
    let mut j: usize = 0;
    while j < sorted.len()
        invariant
            j <= sorted@.len(),
            strs(out@) == seqs(sorted@).take(j as int),
        decreases sorted@.len() - j,
    {
        out.push(string_of(sorted[j].as_slice()));
        assert(seqs(sorted@).take(j + 1) =~= seqs(sorted@).take(j as int).push(sorted@[j as int]@));
        assert(strs(out@) =~= seqs(sorted@).take(j + 1));
        j = j + 1;
    }
    assert(seqs(sorted@).take(sorted@.len() as int) =~= seqs(sorted@));
    proof {
        assert forall|x: Seq<char>| #[trigger] strs(out@).contains(x) <==> seqs(ids@).contains(x) by {
            assert(seqs(sorted@).to_set().contains(x) == seqs(sorted@).contains(x));
            assert(seqs(ids@).to_set().contains(x) == seqs(ids@).contains(x));
        }
    }
    out
}

/// The page size asked for, kept within 1 ..= 200.
pub open spec fn lint_page(limit: usize) -> int {
    if limit < 1 {
        1
    } else if limit > MAX_LINT_LIMIT {
        MAX_LINT_LIMIT as int
    } else {
        limit as int
    }
}

/// Lints the anchor map, given for each anchor whether anything links to it (by its id or
/// one of its aliases).
///
/// It fails when a stored dependency list cannot be read. Otherwise it finds the alias,
/// relation and orphan issues of every anchor, and one issue per parent cycle; lists them
/// in order (errors first, then by code, anchor and message); and returns the first page.
pub fn lint_anchors(anchors: &[LintAnchor], aliases: &[AnchorAlias], linked: &[bool], limit: usize) -> (r: Result<
    AnchorsLintResult,
    StoreError,
>)
    requires
        linked@.len() == anchors@.len(),
    ensures
        !all_deps_readable(anchors@) ==> (r matches Err(StoreError::InvalidInput(e)) && e@
            == "stored anchor list is invalid json"@),
        all_deps_readable(anchors@) ==> r is Ok,
        r matches Ok(res) ==> {
            let kept = issues_view(res.issues@);
            let total = lint_total(anchors@, aliases@, linked@);
            let page = lint_page(limit);
            &&& issues_sorted(kept)
            &&& kept.len() == if total > page {
                page
            } else {
                total as int
            }
            &&& res.has_more == (total > page)
            &&& forall|v: IssueView| #[trigger] kept.to_multiset().count(v) <= lint_count(anchors@, aliases@, linked@, v)
            &&& forall|v: IssueView, j: int|
                0 <= j < kept.len() && kept.to_multiset().count(v) < lint_count(anchors@, aliases@, linked@, v)
                    ==> !#[trigger] lint_key_lt(v, kept[j])
        },
        r matches Ok(res) ==> exists|c: Seq<Seq<char>>, full: Seq<IssueView>|
            {
                &&& c.no_duplicates()
                &&& forall|m: Seq<char>| #[trigger] c.contains(m) <==> is_cycle_min(anchors@, m)
                &&& stable_sort_of(
                    full,
                    alias_issues(anchors@, aliases@) + anchors_issues(anchors@, aliases@, linked@)
                        + cycle_issues(c),
                )
                &&& #[trigger] issues_view(res.issues@) == full.take(res.issues@.len() as int)
            },
{
    broadcast use vstd::seq_lib::group_to_multiset_ensures, vstd::multiset::group_multiset_axioms, vstd::seq_lib::lemma_multiset_commutative;

    let page: usize = if limit < 1 {
        1
    } else if limit > MAX_LINT_LIMIT {
        MAX_LINT_LIMIT
    } else {
        limit
    };
    let mut issues: Vec<AnchorsLintIssue> = Vec::new();
    lint_aliases(anchors, aliases, &mut issues);
    let res = lint_all_anchors(anchors, aliases, linked, &mut issues);
    if let Err(e) = res {
        return Err(e);
    }
    let ghost base = issues_view(issues@);
    lint_cycles(anchors, &mut issues);
    let ghost c = choose|c: Seq<Seq<char>>|
        {
            &&& c.no_duplicates()
            &&& forall|m: Seq<char>| #[trigger] c.contains(m) <==> is_cycle_min(anchors@, m)
            &&& issues_view(issues@) == base + cycle_issues(c)
        };
    proof {
        lemma_cycle_issue_counts(anchors@, c);
        assert(issues_view(Seq::<AnchorsLintIssue>::empty()) =~= Seq::<IssueView>::empty());
        assert(base =~= alias_issues(anchors@, aliases@) + anchors_issues(anchors@, aliases@, linked@));
    }
    let ghost found = issues_view(issues@);
    let mut sorted = sort_issues(issues);
    let ghost all = issues_view(sorted@);
    proof {
        assert forall|v: IssueView| #[trigger] all.to_multiset().count(v) == lint_count(anchors@, aliases@, linked@, v) by {
            assert((base + cycle_issues(c)).to_multiset() =~= base.to_multiset().add(cycle_issues(c).to_multiset()));
        }
        assert(all.len() == all.to_multiset().len());
        assert((base + cycle_issues(c)).len() == (base + cycle_issues(c)).to_multiset().len());
        assert(all.len() == lint_total(anchors@, aliases@, linked@));
    }
    let has_more = sorted.len() > page;
    if has_more {
        sorted.truncate(page);
    }
    proof {
        let kept = issues_view(sorted@);
        let n = kept.len() as int;
        assert(kept =~= all.take(n));
        let rest = all.skip(n);
        assert(all =~= kept + rest);
        assert(all.to_multiset() =~= kept.to_multiset().add(rest.to_multiset()));
        assert forall|v: IssueView| #[trigger] kept.to_multiset().count(v) <= lint_count(anchors@, aliases@, linked@, v) by {
            assert(all.to_multiset().count(v) == kept.to_multiset().count(v) + rest.to_multiset().count(v));
        }
        assert forall|v: IssueView, j: int|
            0 <= j < kept.len() && kept.to_multiset().count(v) < lint_count(anchors@, aliases@, linked@, v)
                implies !#[trigger] lint_key_lt(v, kept[j]) by {
            assert(all.to_multiset().count(v) == kept.to_multiset().count(v) + rest.to_multiset().count(v));
            assert(rest.to_multiset().count(v) > 0);
            assert(rest.contains(v));
            let p = choose|p: int| 0 <= p < rest.len() && rest[p] == v;
            assert(all[n + p] == v);
            assert(all[j] == kept[j]);
            assert(!lint_key_lt(all[n + p], all[j]));
        }
        assert(found == alias_issues(anchors@, aliases@) + anchors_issues(anchors@, aliases@, linked@)
            + cycle_issues(c));
        assert(issues_view(sorted@) == all.take(sorted@.len() as int));
    }
    Ok(AnchorsLintResult { issues: sorted, has_more })
}

} // verus!
