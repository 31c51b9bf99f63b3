use jobset_generator::{
    HydraInputDefinition, HydraJobset, HydraJobsetFlake, HydraJobsetInput, HydraJobsetLegacy,
    HydraJobsets, JobInputCollection,
};

#[test]
fn hydrajobset_flatten_legacy() {
    let defn = HydraJobsetLegacy {
        nixexprinput: String::from("asdf"),
        nixexprpath: String::from("fdsa"),
        inputs: JobInputCollection::new(),
    };
    let jobset = HydraJobset {
        enabled: true,
        hidden: false,
        description: String::from("Some description"),
        checkinterval: 299,
        schedulingshares: 2,
        enableemail: false,
        emailoverride: String::from(""),
        keepnr: 5,
        definition: HydraInputDefinition::Legacy(defn.clone()),
    };

    let flat = jobset.clone().flatten();
    let json = flat.to_json(true);

    assert_eq!(
        (
            jobset.enabled,
            jobset.hidden,
            jobset.description,
            jobset.checkinterval,
            jobset.schedulingshares,
            jobset.enableemail,
            jobset.emailoverride,
            jobset.keepnr,
        ),
        (
            flat.enabled,
            flat.hidden,
            flat.description,
            flat.checkinterval,
            flat.schedulingshares,
            flat.enableemail,
            flat.emailoverride,
            flat.keepnr,
        )
    );

    assert_eq!(flat.nixexprinput, Some(defn.nixexprinput));
    assert_eq!(flat.nixexprpath, Some(defn.nixexprpath));
    assert_eq!(flat.flake, "");
    assert!(flat.inputs.is_empty());

    assert_eq!(
        json,
        r#"{
  "enabled": true,
  "hidden": false,
  "description": "Some description",
  "checkinterval": 299,
  "schedulingshares": 2,
  "enableemail": false,
  "emailoverride": "",
  "keepnr": 5,
  "flake": "",
  "nixexprinput": "asdf",
  "nixexprpath": "fdsa",
  "inputs": {}
}"#
    );
}

#[test]
fn hydrajobset_flatten_flake() {
    let defn = HydraJobsetFlake {
        flake_uri: String::from("fake/uri"),
    };
    let jobset = HydraJobset {
        enabled: false,
        hidden: true,
        description: String::from("Another description"),
        checkinterval: 298,
        schedulingshares: 5,
        enableemail: true,
        emailoverride: String::from("asdf@asdf.asdf"),
        keepnr: 9,
        definition: HydraInputDefinition::Flake(defn.clone()),
    };

    let flat = jobset.clone().flatten();
    let json = flat.to_json(true);

    assert_eq!(
        (
            jobset.enabled,
            jobset.hidden,
            jobset.description,
            jobset.checkinterval,
            jobset.schedulingshares,
            jobset.enableemail,
            jobset.emailoverride,
            jobset.keepnr,
        ),
        (
            flat.enabled,
            flat.hidden,
            flat.description,
            flat.checkinterval,
            flat.schedulingshares,
            flat.enableemail,
            flat.emailoverride,
            flat.keepnr,
        )
    );

    assert_eq!(flat.nixexprinput, None);
    assert_eq!(flat.nixexprpath, None);
    assert_eq!(flat.flake, defn.flake_uri);
    assert!(flat.inputs.is_empty());

    assert_eq!(
        json,
        r#"{
  "enabled": false,
  "hidden": true,
  "description": "Another description",
  "checkinterval": 298,
  "schedulingshares": 5,
  "enableemail": true,
  "emailoverride": "asdf@asdf.asdf",
  "keepnr": 9,
  "flake": "fake/uri",
  "inputs": {}
}"#
    );
}

fn input(kind: &str, value: &str, emailresponsible: bool) -> HydraJobsetInput {
    HydraJobsetInput {
        input_type: String::from(kind),
        value: String::from(value),
        emailresponsible,
    }
}

#[test]
fn flatten_legacy_json_lists_inputs_in_key_order() {
    let mut inputs = JobInputCollection::new();
    inputs.insert(String::from("src"), input("git", "u s", true));
    inputs.insert(String::from("nixpkgs"), input("git", "n", false));
    let jobset = HydraJobset {
        enabled: true,
        hidden: false,
        description: String::from("say \"hi\"\n"),
        checkinterval: 0,
        schedulingshares: 18446744073709551615,
        enableemail: false,
        emailoverride: String::new(),
        keepnr: 10,
        definition: HydraInputDefinition::Legacy(HydraJobsetLegacy {
            nixexprinput: String::from("src"),
            nixexprpath: String::from("ci.nix"),
            inputs,
        }),
    };
    let flat = jobset.flatten();
    assert_eq!(flat.inputs.len(), 2);
    assert_eq!(
        flat.to_json(false),
        String::from(r#"{"enabled":true,"hidden":false,"description":"say \"hi\"\n","#)
            + r#""checkinterval":0,"schedulingshares":18446744073709551615,"#
            + r#""enableemail":false,"emailoverride":"","keepnr":10,"flake":"","#
            + r#""nixexprinput":"src","nixexprpath":"ci.nix","inputs":{"#
            + r#""nixpkgs":{"type":"git","value":"n","emailresponsible":false},"#
            + r#""src":{"type":"git","value":"u s","emailresponsible":true}}}"#
    );
    assert_eq!(
        flat.to_json(true),
        r#"{
  "enabled": true,
  "hidden": false,
  "description": "say \"hi\"\n",
  "checkinterval": 0,
  "schedulingshares": 18446744073709551615,
  "enableemail": false,
  "emailoverride": "",
  "keepnr": 10,
  "flake": "",
  "nixexprinput": "src",
  "nixexprpath": "ci.nix",
  "inputs": {
    "nixpkgs": {
      "type": "git",
      "value": "n",
      "emailresponsible": false
    },
    "src": {
      "type": "git",
      "value": "u s",
      "emailresponsible": true
    }
  }
}"#
    );
}

#[test]
fn empty_jobsets_are_an_empty_object() {
    let jobs = HydraJobsets::new();
    assert_eq!(jobset_generator::jobsets_to_json(&jobs, false), "{}");
    assert_eq!(jobset_generator::jobsets_to_json(&jobs, true), "{}");
}
