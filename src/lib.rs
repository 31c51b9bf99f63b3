mod config;
mod form_encoding;
mod github_types;
mod hydra_types;
mod json;
mod keyed;
mod pr_builder;

pub use config::{
    default_check_interval, default_input_name, default_input_path, default_keep_evaluations,
    default_scheduling_shares, JobConfig,
};
pub use github_types::{
    association_of_tag, AuthorAssociation, Branch, PullRequest, PullRequests, Repo, User,
};
pub use hydra_types::{
    duplicate_inputs, flattened_from, FlattenedHydraJobset, HydraInputDefinition, HydraJobset,
    HydraJobsetFlake, HydraJobsetInput, HydraJobsetLegacy, HydraJobsets, JobInputCollection,
};
pub use keyed::{
    has_key, keys_sorted, lemma_lex_common_prefix, lemma_lex_irreflexive, lemma_lex_transitive, lemma_lex_trichotomy,
    lemma_map_of_at, lemma_sorted_distinct, lemma_sorted_same_keys, lex_lt, lex_lt_from, map_of, str_eq, str_lt,
    KeyedCollection,
};
pub use form_encoding::{
    byte_kept, form_encode, form_encode_byte, form_encode_bytes, form_pair, form_query,
    form_safe_char, hex_digit_upper, lemma_form_encode_escapes_reserved,
};
pub use pr_builder::{
    build_pr_jobsets, description_of, flake_uri_of, head_locator_of, job_for, jobsets_for,
    lemma_flake_uri_escapes_ref_and_rev, lemma_flat_jobset_for, lemma_flatten_single_shape, lemma_jobsets_keys, lemma_legacy_overwrites_primary,
    lemma_synthesis_output_determined, same_input_text,
    legacy_inputs_for, make_flake_definition,
    make_job, make_legacy_definition, DefinitionStrategy,
};
pub use json::{
    bool_text, close_text, decimal_text, digit_text, indent_text, input_json, inputs_json,
    inputs_members, jobset_json, jobsets_json, jobsets_members, jobsets_to_json, json_quoted,
    line_break, member_head, member_text, optional_member,
};
