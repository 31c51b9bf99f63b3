use jobset_generator::{
    build_pr_jobsets, default_check_interval, default_input_name, default_input_path,
    default_keep_evaluations, default_scheduling_shares, jobsets_to_json, make_flake_definition,
    make_job, make_legacy_definition, AuthorAssociation, Branch, DefinitionStrategy,
    HydraInputDefinition, HydraJobsetInput, JobConfig, JobInputCollection, PullRequest,
    PullRequests, Repo, User,
};

fn config(inputname: &str, inputpath: &str, template: JobInputCollection) -> JobConfig {
    JobConfig {
        checkinterval: 1,
        email_responsible: false,
        emailoverride: String::from(""),
        enableemail: false,
        input_template: template,
        inputname: String::from(inputname),
        inputpath: String::from(inputpath),
        keepnr: 3,
        schedulingshares: 1,
    }
}

fn branch(prefix: &str) -> Branch {
    Branch {
        ref_name: format!("{}-ref", prefix),
        sha: format!("{}-sha", prefix),
        repo: Repo {
            git_url: format!("{}-git_url", prefix),
            ssh_url: format!("{}-ssh_url", prefix),
        },
        user: User {
            login: format!("{}-login", prefix),
        },
    }
}

fn pull_request(title: &str) -> PullRequest {
    PullRequest {
        author_association: AuthorAssociation::Member,
        head: branch("head"),
        html_url: String::from("html_url"),
        number: String::from("123"),
        title: String::from(title),
        user: User {
            login: String::from("login"),
        },
        base: branch("base"),
    }
}

fn input(kind: &str, value: &str, emailresponsible: bool) -> HydraJobsetInput {
    HydraJobsetInput {
        input_type: String::from(kind),
        value: String::from(value),
        emailresponsible,
    }
}

#[test]
fn input_name_is_used() {
    let cfg = JobConfig {
        checkinterval: 1,
        email_responsible: false,
        emailoverride: String::from(""),
        enableemail: false,
        input_template: JobInputCollection::new(),
        inputname: String::from("foobar"),
        inputpath: String::from("ci.nix"),
        keepnr: 3,
        schedulingshares: 1,
    };
    let pr = PullRequest {
        author_association: AuthorAssociation::Member,
        head: Branch {
            ref_name: String::from("head-ref"),
            sha: String::from("head-sha"),
            repo: Repo {
                git_url: String::from("head-git_url"),
                ssh_url: String::from("head-ssh_url"),
            },
            user: User {
                login: String::from("head-login"),
            },
        },
        html_url: String::from("html_url"),
        number: String::from("123"),
        title: String::from("Title"),
        user: User {
            login: String::from("login"),
        },
        base: Branch {
            ref_name: String::from("base-ref"),
            sha: String::from("base-sha"),
            repo: Repo {
                git_url: String::from("base-git_url"),
                ssh_url: String::from("base-ssh_url"),
            },
            user: User {
                login: String::from("base-login"),
            },
        },
    };

    let defn = make_legacy_definition(cfg, pr);

    if let HydraInputDefinition::Legacy(legacydef) = defn {
        assert_eq!(legacydef.nixexprinput, "foobar");
        assert_eq!(legacydef.nixexprpath, "ci.nix");
    } else {
        panic!("make_legacy_definition didn't make a legacy definition");
    }
}

#[test]
fn flake_uri_encodes_slash_in_ref() {
    let mut pr = pull_request("Title");
    pr.head.repo.ssh_url = String::from("git@example.com:org/repo");
    pr.head.ref_name = String::from("feature/x");
    pr.head.sha = String::from("abc123");
    let defn = make_flake_definition(config("src", "default.nix", JobInputCollection::new()), pr);
    match defn {
        HydraInputDefinition::Flake(f) => assert_eq!(
            f.flake_uri,
            "git+ssh://git@example.com:org/repo?ref=feature%2Fx&rev=abc123"
        ),
        HydraInputDefinition::Legacy(_) => panic!("expected a flake definition"),
    }
}

#[test]
fn flake_uri_escapes_reserved_characters() {
    let mut pr = pull_request("Title");
    pr.head.repo.ssh_url = String::from("git@h:r");
    pr.head.ref_name = String::from("a&b#c d=é");
    pr.head.sha = String::from("x?y");
    let defn = make_flake_definition(config("src", "default.nix", JobInputCollection::new()), pr);
    match defn {
        HydraInputDefinition::Flake(f) => assert_eq!(
            f.flake_uri,
            "git+ssh://git@h:r?ref=a%26b%23c+d%3D%C3%A9&rev=x%3Fy"
        ),
        HydraInputDefinition::Legacy(_) => panic!("expected a flake definition"),
    }
}

#[test]
fn legacy_definition_adds_primary_input() {
    let mut pr = pull_request("Title");
    pr.head.repo.git_url = String::from("https://example.com/repo.git");
    pr.head.sha = String::from("abc123");
    let mut cfg = config("src", "default.nix", JobInputCollection::new());
    cfg.email_responsible = true;
    match make_legacy_definition(cfg, pr) {
        HydraInputDefinition::Legacy(l) => {
            assert_eq!(l.nixexprinput, "src");
            assert_eq!(l.nixexprpath, "default.nix");
            assert_eq!(l.inputs.len(), 1);
            let src = l.inputs.get("src").expect("primary input");
            assert_eq!(src.input_type, "git");
            assert_eq!(src.value, "https://example.com/repo.git abc123");
            assert!(src.emailresponsible);
        }
        HydraInputDefinition::Flake(_) => panic!("expected a legacy definition"),
    }
}

#[test]
fn legacy_definition_overwrites_template_entry() {
    let mut template = JobInputCollection::new();
    template.insert(String::from("src"), input("path", "/old", true));
    template.insert(String::from("nixpkgs"), input("git", "https://n.git", false));
    let cfg = config("src", "default.nix", template);
    match make_legacy_definition(cfg, pull_request("Title")) {
        HydraInputDefinition::Legacy(l) => {
            assert_eq!(l.inputs.len(), 2);
            let src = l.inputs.get("src").expect("primary input");
            assert_eq!(src.input_type, "git");
            assert_eq!(src.value, "head-git_url head-sha");
            assert!(!src.emailresponsible);
            let nixpkgs = l.inputs.get("nixpkgs").expect("template input");
            assert_eq!(nixpkgs.input_type, "git");
            assert_eq!(nixpkgs.value, "https://n.git");
            assert!(!nixpkgs.emailresponsible);
            let keys: Vec<&str> = l.inputs.entries().iter().map(|e| e.0.as_str()).collect();
            assert_eq!(keys, vec!["nixpkgs", "src"]);
        }
        HydraInputDefinition::Flake(_) => panic!("expected a legacy definition"),
    }
}

#[test]
fn make_job_fills_description_and_settings() {
    let mut cfg = config("src", "default.nix", JobInputCollection::new());
    cfg.checkinterval = 60;
    cfg.schedulingshares = 7;
    cfg.enableemail = true;
    cfg.emailoverride = String::from("a@b.c");
    cfg.keepnr = 4;
    let job = make_job(pull_request("Fix it"), cfg, DefinitionStrategy::Flake).expect("a job");
    assert!(job.enabled);
    assert!(!job.hidden);
    assert_eq!(job.description, "Fix it by login: html_url");
    assert_eq!(job.checkinterval, 60);
    assert_eq!(job.schedulingshares, 7);
    assert!(job.enableemail);
    assert_eq!(job.emailoverride, "a@b.c");
    assert_eq!(job.keepnr, 4);
    assert!(matches!(job.definition, HydraInputDefinition::Flake(_)));
}

fn three_pull_requests() -> PullRequests {
    let mut prs = PullRequests::new();
    prs.insert(String::from("7"), pull_request("Seven"));
    prs.insert(String::from("12"), pull_request("Twelve"));
    prs.insert(String::from("3"), pull_request("Three"));
    prs
}

#[test]
fn build_makes_one_jobset_per_pull_request() {
    let jobs = build_pr_jobsets(
        three_pull_requests(),
        config("src", "default.nix", JobInputCollection::new()),
        DefinitionStrategy::Legacy,
        "",
    );
    assert_eq!(jobs.len(), 3);
    let keys: Vec<&str> = jobs.entries().iter().map(|e| e.0.as_str()).collect();
    assert_eq!(keys, vec!["12", "3", "7"]);
    let twelve = jobs.get("12").expect("jobset 12");
    assert_eq!(twelve.description, "Twelve by login: html_url");
    assert_eq!(twelve.flake, "");
    assert_eq!(twelve.nixexprinput, Some(String::from("src")));
    assert_eq!(twelve.inputs.len(), 1);
}

#[test]
fn build_puts_prefix_before_keys() {
    let jobs = build_pr_jobsets(
        three_pull_requests(),
        config("src", "default.nix", JobInputCollection::new()),
        DefinitionStrategy::Flake,
        "pr-",
    );
    let keys: Vec<&str> = jobs.entries().iter().map(|e| e.0.as_str()).collect();
    assert_eq!(keys, vec!["pr-12", "pr-3", "pr-7"]);
    let seven = jobs.get("pr-7").expect("jobset pr-7");
    assert_eq!(seven.flake, "git+ssh://head-ssh_url?ref=head-ref&rev=head-sha");
    assert_eq!(seven.nixexprinput, None);
    assert!(seven.inputs.is_empty());
}

#[test]
fn build_of_no_pull_requests_is_empty() {
    let jobs = build_pr_jobsets(
        PullRequests::new(),
        config("src", "default.nix", JobInputCollection::new()),
        DefinitionStrategy::Flake,
        "",
    );
    assert!(jobs.is_empty());
    assert_eq!(jobsets_to_json(&jobs, false), "{}");
}

#[test]
fn synthesis_twice_gives_same_output() {
    let mut template = JobInputCollection::new();
    template.insert(String::from("nixpkgs"), input("git", "https://n.git", true));
    let first = build_pr_jobsets(
        three_pull_requests(),
        config("src", "default.nix", template.clone()),
        DefinitionStrategy::Legacy,
        "pr-",
    );
    let second = build_pr_jobsets(
        three_pull_requests(),
        config("src", "default.nix", template),
        DefinitionStrategy::Legacy,
        "pr-",
    );
    assert_eq!(jobsets_to_json(&first, false), jobsets_to_json(&second, false));
    assert_eq!(jobsets_to_json(&first, true), jobsets_to_json(&second, true));
}

#[test]
fn jobsets_json_is_keyed_object() {
    let mut prs = PullRequests::new();
    prs.insert(String::from("1"), pull_request("One"));
    let jobs = build_pr_jobsets(
        prs,
        config("src", "default.nix", JobInputCollection::new()),
        DefinitionStrategy::Flake,
        "",
    );
    assert_eq!(
        jobsets_to_json(&jobs, false),
        String::from(r#"{"1":{"enabled":true,"hidden":false,"description":"One by login: html_url","#)
            + r#""checkinterval":1,"schedulingshares":1,"enableemail":false,"emailoverride":"","#
            + r#""keepnr":3,"flake":"git+ssh://head-ssh_url?ref=head-ref&rev=head-sha","#
            + r#""inputs":{}}}"#
    );
}

#[test]
fn author_association_tags() {
    assert_eq!(AuthorAssociation::from_tag("MEMBER"), Some(AuthorAssociation::Member));
    assert_eq!(AuthorAssociation::from_tag("CONTRIBUTOR"), Some(AuthorAssociation::Contributor));
    assert_eq!(AuthorAssociation::from_tag("NONE"), Some(AuthorAssociation::NoAssociation));
    assert_eq!(AuthorAssociation::from_tag("COLLABORATOR"), Some(AuthorAssociation::Collaborator));
    assert_eq!(AuthorAssociation::from_tag("FIRST_TIMER"), Some(AuthorAssociation::FirstTimer));
    assert_eq!(
        AuthorAssociation::from_tag("FIRST_TIME_CONTRIBUTOR"),
        Some(AuthorAssociation::FirstTimeContributor)
    );
    assert_eq!(AuthorAssociation::from_tag("MANNEQUIN"), Some(AuthorAssociation::Mannequin));
    assert_eq!(AuthorAssociation::from_tag("OWNER"), Some(AuthorAssociation::Owner));
}

#[test]
fn unknown_author_association_is_refused() {
    assert_eq!(AuthorAssociation::from_tag("BOT"), None);
    assert_eq!(AuthorAssociation::from_tag("member"), None);
    assert_eq!(AuthorAssociation::from_tag(""), None);
    assert_eq!(AuthorAssociation::from_tag("OWNERS"), None);
}

#[test]
fn configuration_defaults() {
    assert_eq!(default_check_interval(), 300);
    assert_eq!(default_scheduling_shares(), 1);
    assert_eq!(default_keep_evaluations(), 3);
    assert_eq!(default_input_name(), "src");
    assert_eq!(default_input_path(), "default.nix");
}

#[test]
fn duplicate_config_keeps_everything() {
    let mut template = JobInputCollection::new();
    template.insert(String::from("b"), input("git", "2", false));
    template.insert(String::from("a"), input("git", "1", true));
    let cfg = config("src", "ci.nix", template);
    let copy = cfg.duplicate();
    assert_eq!(copy.inputname, "src");
    assert_eq!(copy.inputpath, "ci.nix");
    assert_eq!(copy.input_template.len(), 2);
    assert_eq!(copy.input_template.get("a").expect("a").value, "1");
    assert_eq!(copy.input_template.get("b").expect("b").value, "2");
}
