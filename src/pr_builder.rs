use vstd::prelude::*;

use crate::config::JobConfig;
use crate::form_encoding::{
    form_encode, form_pair, form_query, form_safe_char, form_urlencoded_query,
    lemma_form_encode_escapes_reserved,
};
use crate::github_types::{PullRequest, PullRequests};
use crate::hydra_types::{
    flattened_from, FlattenedHydraJobset, HydraInputDefinition, HydraJobset, HydraJobsetFlake,
    HydraJobsetInput, HydraJobsetLegacy, HydraJobsets, JobInputCollection,
};
use crate::json::{
    input_json, inputs_json, inputs_members, jobset_json, jobsets_json, jobsets_members,
    optional_member,
};
use crate::keyed::{
    has_key, keys_sorted, lemma_lex_common_prefix, lemma_map_of_at, lemma_sorted_same_keys, lex_lt,
    KeyedCollection,
};

verus! {

/// How each pull request's jobset names what it builds.
#[derive(Clone, Copy, Debug, PartialEq, Eq, Structural)]
pub enum DefinitionStrategy {
    Flake,
    Legacy,
}

/// The flake URI of a pull request: its head repository over SSH, with the
/// head branch and commit as form-encoded query parameters.
pub open spec fn flake_uri_of(pr: PullRequest) -> Seq<char> {
    "git+ssh://"@ + pr.head.repo.ssh_url@ + "?"@ + form_query(
        seq![("ref"@, pr.head.ref_name@), ("rev"@, pr.head.sha@)],
    )
}

/// The locator of a pull request's head commit: its git URL, a space and the commit.
pub open spec fn head_locator_of(pr: PullRequest) -> Seq<char> {
    pr.head.repo.git_url@ + " "@ + pr.head.sha@
}

/// The description of a pull request's jobset.
pub open spec fn description_of(pr: PullRequest) -> Seq<char> {
    pr.title@ + " by "@ + pr.user.login@ + ": "@ + pr.html_url@
}

/// Whether `inputs` is the configured template with the primary input, named
/// as configured, put in place of any template entry of that name.
pub open spec fn legacy_inputs_for(
    cfg: JobConfig,
    pr: PullRequest,
    inputs: JobInputCollection,
) -> bool {
    let m = inputs.as_map();
    let name = cfg.inputname@;
    &&& inputs.wf()
    &&& m.contains_key(name)
    &&& m[name].input_type@ == "git"@
    &&& m[name].value@ == head_locator_of(pr)
    &&& m[name].emailresponsible == cfg.email_responsible
    &&& m.remove(name) == cfg.input_template.as_map().remove(name)
}

impl DefinitionStrategy {
    /// Whether `d` is the definition that this strategy gives for `pr` under `cfg`.
    pub open spec fn definition_for(
        self,
        cfg: JobConfig,
        pr: PullRequest,
        d: HydraInputDefinition,
    ) -> bool {
        match self {
            DefinitionStrategy::Flake => d matches HydraInputDefinition::Flake(f) && f.flake_uri@
                == flake_uri_of(pr),
            DefinitionStrategy::Legacy => d matches HydraInputDefinition::Legacy(l) && {
                &&& l.nixexprinput@ == cfg.inputname@
                &&& l.nixexprpath@ == cfg.inputpath@
                &&& legacy_inputs_for(cfg, pr, l.inputs)
            },
        }
    }

    /// Whether `f` is the flattened jobset that this strategy gives for `pr` under `cfg`.
    pub open spec fn flat_jobset_for(
        self,
        cfg: JobConfig,
        pr: PullRequest,
        f: FlattenedHydraJobset,
    ) -> bool {
        &&& f.enabled
        &&& !f.hidden
        &&& f.description@ == description_of(pr)
        &&& f.checkinterval == cfg.checkinterval
        &&& f.schedulingshares == cfg.schedulingshares
        &&& f.enableemail == cfg.enableemail
        &&& f.emailoverride@ == cfg.emailoverride@
        &&& f.keepnr == cfg.keepnr
        &&& match self {
            DefinitionStrategy::Flake => {
                &&& f.flake@ == flake_uri_of(pr)
                &&& f.nixexprinput is None
                &&& f.nixexprpath is None
                &&& f.inputs.wf()
                &&& f.inputs@.len() == 0
            },
            DefinitionStrategy::Legacy => {
                &&& f.flake@.len() == 0
                &&& f.nixexprinput matches Some(n) && n@ == cfg.inputname@
                &&& f.nixexprpath matches Some(p) && p@ == cfg.inputpath@
                &&& legacy_inputs_for(cfg, pr, f.inputs)
            },
        }
    }

    /// The definition of `pr`'s jobset under this strategy.
    pub fn make_definition(self, job_config: JobConfig, pr: PullRequest) -> (r:
        HydraInputDefinition)
        requires
            job_config.wf(),
        ensures
            self.definition_for(job_config, pr, r),
    {
        match self {
            DefinitionStrategy::Flake => make_flake_definition(job_config, pr),
            DefinitionStrategy::Legacy => make_legacy_definition(job_config, pr),
        }
    }
}

/// A flake definition that points at the pull request's head branch and commit.
pub fn make_flake_definition(_job_config: JobConfig, pr: PullRequest) -> (r: HydraInputDefinition)
    ensures
        r matches HydraInputDefinition::Flake(f) && f.flake_uri@ == flake_uri_of(pr),
{
    let mut pairs: Vec<(String, String)> = Vec::new();
    pairs.push((String::from_str("ref"), pr.head.ref_name.clone()));
    pairs.push((String::from_str("rev"), pr.head.sha.clone()));
    let query = form_urlencoded_query(&pairs);
    proof {
        assert(pairs@.map_values(|p: (String, String)| (p.0@, p.1@)) =~= seq![
            ("ref"@, pr.head.ref_name@),
            ("rev"@, pr.head.sha@),
        ]);
    }
    let mut uri = String::from_str("git+ssh://");
    uri.append(pr.head.repo.ssh_url.as_str());
    uri.append("?");
    uri.append(query.as_str());
    HydraInputDefinition::Flake(HydraJobsetFlake { flake_uri: uri })
}

/// A legacy definition: the configured template of inputs with the pull
/// request's head commit as the primary input.
pub fn make_legacy_definition(job_config: JobConfig, pr: PullRequest) -> (r: HydraInputDefinition)
    requires
        job_config.wf(),
    ensures
        DefinitionStrategy::Legacy.definition_for(job_config, pr, r),
{
    let mut value = pr.head.repo.git_url.clone();
    value.append(" ");
    value.append(pr.head.sha.as_str());
    let input = HydraJobsetInput {
        input_type: String::from_str("git"),
        value,
        emailresponsible: job_config.email_responsible,
    };
    let mut inputs = job_config.input_template;
    inputs.insert(job_config.inputname.clone(), input);
    proof {
        assert(inputs.as_map().remove(job_config.inputname@) =~= job_config.input_template.as_map().remove(
            job_config.inputname@,
        ));
    }
    HydraInputDefinition::Legacy(
        HydraJobsetLegacy {
            inputs,
            nixexprinput: job_config.inputname,
            nixexprpath: job_config.inputpath,
        },
    )
}

/// Whether `j` is the jobset that `strategy` gives for `pr` under `cfg`.
pub open spec fn job_for(
    cfg: JobConfig,
    pr: PullRequest,
    strategy: DefinitionStrategy,
    j: HydraJobset,
) -> bool {
    &&& j.enabled
    &&& !j.hidden
    &&& j.description@ == description_of(pr)
    &&& j.checkinterval == cfg.checkinterval
    &&& j.schedulingshares == cfg.schedulingshares
    &&& j.enableemail == cfg.enableemail
    &&& j.emailoverride@ == cfg.emailoverride@
    &&& j.keepnr == cfg.keepnr
    &&& strategy.definition_for(cfg, pr, j.definition)
}

/// The jobset of one pull request: enabled, visible, described by its title,
/// author and address, with the configured settings and the strategy's definition.
pub fn make_job(pr: PullRequest, job_config: JobConfig, strategy: DefinitionStrategy) -> (r: Option<
    HydraJobset,
>)
    requires
        job_config.wf(),
    ensures
        r matches Some(j) && job_for(job_config, pr, strategy, j),
{
    let config_copy = job_config.duplicate();
    let mut description = pr.title.clone();
    description.append(" by ");
    description.append(pr.user.login.as_str());
    description.append(": ");
    description.append(pr.html_url.as_str());
    let definition = strategy.make_definition(config_copy, pr);
    proof {
        assert(config_copy.input_template.as_map() == job_config.input_template.as_map());
    }
    Some(
        HydraJobset {
            enabled: true,
            hidden: false,
            description,
            checkinterval: job_config.checkinterval,
            schedulingshares: job_config.schedulingshares,
            enableemail: job_config.enableemail,
            emailoverride: job_config.emailoverride,
            keepnr: job_config.keepnr,
            definition,
        },
    )
}

/// A jobset that a strategy made flattens to the flat jobset that the
/// strategy gives.
pub proof fn lemma_flat_jobset_for(
    cfg: JobConfig,
    pr: PullRequest,
    strategy: DefinitionStrategy,
    j: HydraJobset,
    f: FlattenedHydraJobset,
)
    requires
        job_for(cfg, pr, strategy, j),
        flattened_from(j, f),
    ensures
        strategy.flat_jobset_for(cfg, pr, f),
{
}

/// Whether `r` holds one flattened jobset per pull request of `prs`, in the
/// same order, under the pull request's key after `prefix`.
pub open spec fn jobsets_for(
    prs: PullRequests,
    cfg: JobConfig,
    strategy: DefinitionStrategy,
    prefix: Seq<char>,
    r: HydraJobsets,
) -> bool {
    &&& r.wf()
    &&& r@.len() == prs@.len()
    &&& forall|i: int|
        0 <= i < r@.len() ==> #[trigger] r@[i].0 == prefix + prs@[i].0
            && strategy.flat_jobset_for(cfg, prs@[i].1, r@[i].1)
}

/// Every jobset that either strategy makes flattens to exactly one of the two
/// shapes: the flake field alone, or the fields of a legacy definition alone.
pub proof fn lemma_flatten_single_shape(
    cfg: JobConfig,
    pr: PullRequest,
    strategy: DefinitionStrategy,
    j: HydraJobset,
    f: FlattenedHydraJobset,
)
    requires
        job_for(cfg, pr, strategy, j),
        flattened_from(j, f),
    ensures
        f.has_flake_shape() || f.has_legacy_shape(),
        !(f.has_flake_shape() && f.has_legacy_shape()),
{
    match strategy {
        DefinitionStrategy::Flake => {
            assert(f.flake@.len() >= ("git+ssh://"@).len());
            assert(("git+ssh://"@).len() > 0) by {
                reveal_strlit("git+ssh://");
            }
        },
        DefinitionStrategy::Legacy => {
            assert(has_key(f.inputs@, cfg.inputname@));
        },
    }
}

/// The legacy strategy puts the primary input under the configured name,
/// whether or not the template had an entry of that name, and keeps every
/// other entry of the template as it was.
pub proof fn lemma_legacy_overwrites_primary(
    cfg: JobConfig,
    pr: PullRequest,
    d: HydraInputDefinition,
)
    requires
        DefinitionStrategy::Legacy.definition_for(cfg, pr, d),
    ensures
        d matches HydraInputDefinition::Legacy(l) && {
            let m = l.inputs.as_map();
            let t = cfg.input_template.as_map();
            let name = cfg.inputname@;
            &&& m.contains_key(name)
            &&& m[name].input_type@ == "git"@
            &&& m[name].value@ == head_locator_of(pr)
            &&& m[name].emailresponsible == cfg.email_responsible
            &&& forall|k: Seq<char>|
                k != name ==> (#[trigger] m.contains_key(k) <==> t.contains_key(k)) && (
                t.contains_key(k) ==> m[k] == t[k])
        },
{
    if let HydraInputDefinition::Legacy(l) = d {
        let m = l.inputs.as_map();
        let t = cfg.input_template.as_map();
        let name = cfg.inputname@;
        assert forall|k: Seq<char>| k != name implies (#[trigger] m.contains_key(k)
            <==> t.contains_key(k)) && (t.contains_key(k) ==> m[k] == t[k]) by {
            assert(m.remove(name).contains_key(k) == m.contains_key(k));
            assert(t.remove(name).contains_key(k) == t.contains_key(k));
            if t.contains_key(k) {
                assert(m.remove(name)[k] == m[k]);
                assert(t.remove(name)[k] == t[k]);
            }
        }
    }
}

/// Each pull request's key, after the prefix, is a key of the jobsets.
pub proof fn lemma_jobsets_keys(
    prs: PullRequests,
    cfg: JobConfig,
    strategy: DefinitionStrategy,
    prefix: Seq<char>,
    r: HydraJobsets,
)
    requires
        jobsets_for(prs, cfg, strategy, prefix, r),
    ensures
        forall|k: Seq<char>| #[trigger] prs.as_map().contains_key(k) ==> r.as_map().contains_key(
            prefix + k,
        ),
{
    assert forall|k: Seq<char>| #[trigger] prs.as_map().contains_key(k) implies r.as_map().contains_key(
        prefix + k,
    ) by {
        let i = choose|i: int| 0 <= i < prs@.len() && #[trigger] prs@[i].0 == k;
        assert(r@[i].0 == prefix + k);
        assert(has_key(r@, prefix + k));
    }
}

/// In a flake URI the branch and the commit stand form-encoded after `ref=`
/// and `rev=`: no character of theirs is a `&`, `=`, `#`, `?`, `/` or space,
/// so none can end or split the query.
pub proof fn lemma_flake_uri_escapes_ref_and_rev(pr: PullRequest)
    ensures
        flake_uri_of(pr) == "git+ssh://"@ + pr.head.repo.ssh_url@ + "?"@ + (form_encode("ref"@)
            + "="@ + form_encode(pr.head.ref_name@)) + "&"@ + (form_encode("rev"@) + "="@
            + form_encode(pr.head.sha@)),
        forall|i: int|
            0 <= i < form_encode(pr.head.ref_name@).len() ==> {
                let c = #[trigger] form_encode(pr.head.ref_name@)[i];
                form_safe_char(c) && c != '&' && c != '=' && c != '#' && c != '?' && c != '/'
                    && c != ' '
            },
        forall|i: int|
            0 <= i < form_encode(pr.head.sha@).len() ==> {
                let c = #[trigger] form_encode(pr.head.sha@)[i];
                form_safe_char(c) && c != '&' && c != '=' && c != '#' && c != '?' && c != '/'
                    && c != ' '
            },
{
    let ps = seq![("ref"@, pr.head.ref_name@), ("rev"@, pr.head.sha@)];
    assert(ps.drop_first() =~= seq![("rev"@, pr.head.sha@)]);
    assert(form_query(ps.drop_first()) == form_pair(("rev"@, pr.head.sha@)));
    assert(form_query(ps) == form_pair(ps[0]) + "&"@ + form_query(ps.drop_first()));
    lemma_form_encode_escapes_reserved(pr.head.ref_name@);
    lemma_form_encode_escapes_reserved(pr.head.sha@);
}

/// Whether two inputs hold the same text and flag.
pub open spec fn same_input_text(a: HydraJobsetInput, b: HydraJobsetInput) -> bool {
    &&& a.input_type@ == b.input_type@
    &&& a.value@ == b.value@
    &&& a.emailresponsible == b.emailresponsible
}

proof fn lemma_inputs_members_same(
    s1: Seq<(Seq<char>, HydraJobsetInput)>,
    s2: Seq<(Seq<char>, HydraJobsetInput)>,
    pretty: bool,
    level: nat,
)
    requires
        s1.len() == s2.len(),
        forall|i: int|
            0 <= i < s1.len() ==> #[trigger] s1[i].0 == s2[i].0 && same_input_text(
                s1[i].1,
                s2[i].1,
            ),
    ensures
        inputs_members(s1, pretty, level) == inputs_members(s2, pretty, level),
    decreases s1.len(),
{
    reveal(input_json);
    if s1.len() > 0 {
        let n = s1.len() - 1;
        assert(s1[n].0 == s2[n].0 && same_input_text(s1[n].1, s2[n].1));
        assert forall|i: int| 0 <= i < s1.drop_last().len() implies #[trigger] s1.drop_last()[i].0
            == s2.drop_last()[i].0 && same_input_text(s1.drop_last()[i].1, s2.drop_last()[i].1) by {
            assert(s1[i].0 == s2[i].0 && same_input_text(s1[i].1, s2[i].1));
        }
        lemma_inputs_members_same(s1.drop_last(), s2.drop_last(), pretty, level);
    }
}

/// Two flattened jobsets that a strategy gives for one pull request under one
/// configuration are written as the same JSON text.
#[verifier::spinoff_prover]
proof fn lemma_flat_jobsets_same_json(
    cfg: JobConfig,
    pr: PullRequest,
    strategy: DefinitionStrategy,
    f1: FlattenedHydraJobset,
    f2: FlattenedHydraJobset,
    pretty: bool,
    level: nat,
)
    requires
        strategy.flat_jobset_for(cfg, pr, f1),
        strategy.flat_jobset_for(cfg, pr, f2),
    ensures
        jobset_json(f1, pretty, level) == jobset_json(f2, pretty, level),
{
    let s1 = f1.inputs@;
    let s2 = f2.inputs@;
    match strategy {
        DefinitionStrategy::Flake => {
            assert(s1 =~= s2);
            assert(f1.flake@ == f2.flake@);
        },
        DefinitionStrategy::Legacy => {
            let name = cfg.inputname@;
            let m1 = f1.inputs.as_map();
            let m2 = f2.inputs.as_map();
            let t = cfg.input_template.as_map();
            assert forall|k: Seq<char>| has_key(s1, k) <==> has_key(s2, k) by {
                assert(m1.remove(name).contains_key(k) == m2.remove(name).contains_key(k));
            }
            lemma_sorted_same_keys(s1, s2);
            assert forall|i: int| 0 <= i < s1.len() implies #[trigger] s1[i].0 == s2[i].0
                && same_input_text(s1[i].1, s2[i].1) by {
                lemma_map_of_at(s1, i);
                lemma_map_of_at(s2, i);
                let k = s1[i].0;
                if k != name {
                    assert(m1.remove(name)[k] == m1[k]);
                    assert(m2.remove(name)[k] == m2[k]);
                }
            }
            assert(f1.flake@ =~= f2.flake@);
            assert(optional_member(pretty, level, "nixexprinput"@, f1.nixexprinput)
                == optional_member(pretty, level, "nixexprinput"@, f2.nixexprinput));
            assert(optional_member(pretty, level, "nixexprpath"@, f1.nixexprpath)
                == optional_member(pretty, level, "nixexprpath"@, f2.nixexprpath));
        },
    }
    lemma_inputs_members_same(s1, s2, pretty, level + 1);
    reveal(inputs_json);
    assert(inputs_json(s1, pretty, level + 1) == inputs_json(s2, pretty, level + 1));
    assert(f1.description@ == f2.description@ && f1.emailoverride@ == f2.emailoverride@);
    reveal(jobset_json);
}

#[verifier::spinoff_prover]
proof fn lemma_jobsets_members_same(
    prs: Seq<(Seq<char>, PullRequest)>,
    cfg: JobConfig,
    strategy: DefinitionStrategy,
    s1: Seq<(Seq<char>, FlattenedHydraJobset)>,
    s2: Seq<(Seq<char>, FlattenedHydraJobset)>,
    pretty: bool,
    n: int,
)
    requires
        s1.len() == s2.len(),
        s1.len() <= prs.len(),
        0 <= n <= s1.len(),
        forall|i: int|
            0 <= i < s1.len() ==> #[trigger] s1[i].0 == s2[i].0 && strategy.flat_jobset_for(
                cfg,
                prs[i].1,
                s1[i].1,
            ) && strategy.flat_jobset_for(cfg, prs[i].1, s2[i].1),
    ensures
        jobsets_members(s1.take(n), pretty, 0) == jobsets_members(s2.take(n), pretty, 0),
    decreases n,
{
    if n > 0 {
        let k = n - 1;
        assert(s1[k].0 == s2[k].0);
        lemma_flat_jobsets_same_json(cfg, prs[k].1, strategy, s1[k].1, s2[k].1, pretty, 1);
        lemma_jobsets_members_same(prs, cfg, strategy, s1, s2, pretty, k);
        assert(s1.take(n).drop_last() =~= s1.take(k));
        assert(s2.take(n).drop_last() =~= s2.take(k));
        assert(s1.take(n).last() == s1[k]);
        assert(s2.take(n).last() == s2[k]);
    }
}

/// Synthesis is deterministic: two runs on the same pull requests,
/// configuration, strategy and key prefix are written as the same JSON text.
pub proof fn lemma_synthesis_output_determined(
    prs: PullRequests,
    cfg: JobConfig,
    strategy: DefinitionStrategy,
    prefix: Seq<char>,
    r1: HydraJobsets,
    r2: HydraJobsets,
    pretty: bool,
)
    requires
        jobsets_for(prs, cfg, strategy, prefix, r1),
        jobsets_for(prs, cfg, strategy, prefix, r2),
    ensures
        jobsets_json(r1@, pretty) == jobsets_json(r2@, pretty),
{
    assert forall|i: int| 0 <= i < r1@.len() implies #[trigger] r1@[i].0 == r2@[i].0
        && strategy.flat_jobset_for(cfg, prs@[i].1, r1@[i].1) && strategy.flat_jobset_for(
        cfg,
        prs@[i].1,
        r2@[i].1,
    ) by {
        assert(r1@[i].0 == prefix + prs@[i].0);
        assert(r2@[i].0 == prefix + prs@[i].0);
    }
    lemma_jobsets_members_same(prs@, cfg, strategy, r1@, r2@, pretty, r1@.len() as int);
    assert(r1@.take(r1@.len() as int) =~= r1@);
    assert(r2@.take(r2@.len() as int) =~= r2@);
}

/// The jobsets of all pull requests, one per pull request, in key order, each
/// under the pull request's key after `key_prefix`.
#[verifier::spinoff_prover]
pub fn build_pr_jobsets(
    pull_requests: PullRequests,
    job_config: JobConfig,
    strategy: DefinitionStrategy,
    key_prefix: &str,
) -> (r: HydraJobsets)
    requires
        pull_requests.wf(),
        job_config.wf(),
    ensures
        jobsets_for(pull_requests, job_config, strategy, key_prefix@, r),
{
    let ghost prs = pull_requests@;
    let mut entries = pull_requests.into_entries();
    let n = entries.len();
    let mut jobs: HydraJobsets = KeyedCollection::new();
    let mut done: usize = 0;
    while done < n
        invariant
            n == prs.len(),
            done <= n,
            entries@.len() == n - done,
            forall|j: int|
                0 <= j < entries@.len() ==> (#[trigger] entries@[j]).0@ == prs[done + j].0
                    && entries@[j].1 == prs[done + j].1,
            keys_sorted(prs),
            job_config.wf(),
            jobs.wf(),
            jobs@.len() == done,
            forall|i: int|
                0 <= i < done ==> #[trigger] jobs@[i].0 == key_prefix@ + prs[i].0
                    && strategy.flat_jobset_for(job_config, prs[i].1, jobs@[i].1),
        decreases n - done,
    {
        let ghost before = entries@;
        let (key, pr) = entries.remove(0);
        proof {
            assert forall|j: int| 0 <= j < entries@.len() implies (#[trigger] entries@[j]).0@
                == prs[done + 1 + j].0 && entries@[j].1 == prs[done + 1 + j].1 by {
                assert(entries@[j] == before[j + 1]);
            }
            assert(key@ == prs[done as int].0 && pr == prs[done as int].1) by {
                assert(before[0] == (key, pr));
            }
        }
        let ghost pr0 = pr;
        let config_copy = job_config.duplicate();
        let job = make_job(pr, config_copy, strategy).unwrap();
        let ghost j0 = job;
        let flat = job.flatten();
        proof {
            lemma_flat_jobset_for(config_copy, pr0, strategy, j0, flat);
            assert(config_copy.input_template.as_map() == job_config.input_template.as_map());
            assert(strategy.flat_jobset_for(job_config, prs[done as int].1, flat));
        }
        let mut out_key = String::from_str(key_prefix);
        out_key.append(key.as_str());
        proof {
            if done > 0 {
                assert(lex_lt(prs[done - 1].0, prs[done as int].0));
                lemma_lex_common_prefix(key_prefix@, prs[done - 1].0, prs[done as int].0);
                assert(jobs@.last().0 == key_prefix@ + prs[done - 1].0);
            }
        }
        let ghost old_jobs = jobs@;
        jobs.push_last(out_key, flat);
        proof {
            assert forall|i: int| 0 <= i < done + 1 implies #[trigger] jobs@[i].0 == key_prefix@
                + prs[i].0 && strategy.flat_jobset_for(job_config, prs[i].1, jobs@[i].1) by {
                if i < done {
                    assert(jobs@[i] == old_jobs[i]);
                    assert(old_jobs[i].0 == key_prefix@ + prs[i].0);
                } else {
                    assert(jobs@[i] == (out_key@, flat));
                }
            }
        }
        done = done + 1;
    }
    jobs
}

} // verus!
