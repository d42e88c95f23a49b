use agent_lib::assets::{
    accounts_plan, algorithm_name, u32_dec_string, GenerateNetworkAssets, KeyAlgorithm, Params,
    Version, VersionError,
};
use agent_lib::compile::{
    build_dir, find_files_with_suffix, str_ends_with, str_eq, BuildArtifacts, BuildProject,
    CargoBuildRustProject, CheckoutGitRepo, Compile, Project,
};

#[test]
fn version_parsing_accepts_dotted_triples() {
    assert_eq!(
        Version::parse("1.0.0").unwrap(),
        Version { major: 1, minor: 0, patch: 0 }
    );
    assert_eq!(
        Version::parse("12.34.56").unwrap(),
        Version { major: 12, minor: 34, patch: 56 }
    );
    // a fourth component is ignored, as split-and-take-three would
    assert_eq!(
        Version::parse("1.2.3.9").unwrap(),
        Version { major: 1, minor: 2, patch: 3 }
    );
    // leading plus and leading zeros are what u32 parsing accepts
    assert_eq!(
        Version::parse("+42.007.0").unwrap(),
        Version { major: 42, minor: 7, patch: 0 }
    );
    assert_eq!(
        Version::parse("4294967295.0.0").unwrap().major,
        u32::MAX
    );
}

#[test]
fn version_parsing_rejects_bad_input() {
    assert!(matches!(
        Version::parse("1"),
        Err(VersionError::MissingMinor)
    ));
    assert!(matches!(
        Version::parse("1.2"),
        Err(VersionError::MissingPatch)
    ));
    assert!(matches!(
        Version::parse("a.b.c"),
        Err(VersionError::InvalidNumber)
    ));
    assert!(matches!(
        Version::parse("1..3"),
        Err(VersionError::InvalidNumber)
    ));
    assert!(matches!(
        Version::parse(""),
        Err(VersionError::InvalidNumber)
    ));
    assert!(matches!(
        Version::parse("-1.0.0"),
        Err(VersionError::InvalidNumber)
    ));
    // one past u32::MAX
    assert!(matches!(
        Version::parse("4294967296.0.0"),
        Err(VersionError::InvalidNumber)
    ));
}

#[test]
fn version_rendering() {
    let v = Version { major: 1, minor: 23, patch: 456 };
    assert_eq!(v.to_display_string(), "1.23.456");
    assert_eq!(v.to_underscored_string(), "1_23_456");
    assert_eq!(u32_dec_string(0), "0");
    assert_eq!(u32_dec_string(10), "10");
    assert_eq!(u32_dec_string(4294967295), "4294967295");
}

#[test]
fn params_defaults() {
    match Params::default() {
        Params::Generate {
            validator_count,
            validator_balance,
            validator_bonded_amount,
            delegator_count,
            delegator_balance,
            delegated_amount,
        } => {
            assert_eq!(validator_count, 10);
            assert_eq!(validator_balance, 100_000_000_000 * 1_000_000);
            assert_eq!(validator_bonded_amount, 100_000_000_000 * 1_000_000);
            assert_eq!(delegator_count, 10);
            assert_eq!(delegator_balance, 1_000_000 * 1_000_000);
            assert_eq!(delegated_amount, 500_000 * 1_000_000);
        }
        other => panic!("default params must be explicit, got {:?}", other),
    }
}

#[test]
fn accounts_plan_alternates_algorithms_and_cycles_validators() {
    let plan = accounts_plan(Params::Validators { count: 3 });
    assert_eq!(plan.validators.len(), 3);
    assert_eq!(plan.delegators.len(), 10);
    for (i, v) in plan.validators.iter().enumerate() {
        assert_eq!(v.id, i as u32);
        let expected = if i % 2 == 0 {
            KeyAlgorithm::Ed25519
        } else {
            KeyAlgorithm::Secp256k1
        };
        assert_eq!(v.algorithm, expected);
        assert_eq!(v.key_dir, format!("validator-{i}"));
        assert_eq!(v.balance, 100_000_000_000 * 1_000_000);
        assert_eq!(v.bonded_amount, 100_000_000_000 * 1_000_000);
    }
    for (d, spec) in plan.delegators.iter().enumerate() {
        assert_eq!(spec.id, d as u32);
        assert_eq!(spec.validator_index, (d % 3) as u32);
        assert_eq!(spec.key_dir, format!("delegator-{d}"));
        assert_eq!(spec.balance, 1_000_000 * 1_000_000);
        assert_eq!(spec.delegated_amount, 500_000 * 1_000_000);
    }
    assert_eq!(algorithm_name(&KeyAlgorithm::Ed25519), "Ed25519");
    assert_eq!(algorithm_name(&KeyAlgorithm::Secp256k1), "secp256k1");
}

#[test]
fn network_dirs_follow_name_and_version() {
    let gen = GenerateNetworkAssets {
        network_name: "testnet".to_string(),
        version: Version { major: 1, minor: 0, patch: 0 },
        assets_path: "xcasper-staging/assets".to_string(),
        chainspec_src_path: "xcasper-staging/casper-node/resources/production/".to_string(),
        source: Params::Default,
        overwrite: false,
    };
    assert_eq!(gen.network_dir(), "xcasper-staging/assets/testnet/1_0_0");
    assert_eq!(
        gen.network_shared_dir(),
        "xcasper-staging/assets/testnet/1_0_0/shared"
    );
    let artifacts = gen.expected_artifacts();
    assert_eq!(artifacts.path, "xcasper-staging/assets/testnet/1_0_0/shared");
    assert_eq!(
        artifacts.files,
        vec!["accounts.toml", "chainspec.toml", "config.toml"]
    );
}

#[test]
fn project_names_parse() {
    assert_eq!(Project::parse("casper-db-utils").unwrap(), Project::DbUtils);
    assert_eq!(Project::parse("casper-node").unwrap(), Project::Node);
    assert_eq!(Project::parse("casper-client").unwrap(), Project::Client);
    assert_eq!(
        Project::parse("casper-node-launcher").unwrap(),
        Project::Launcher
    );
    assert_eq!(
        Project::parse("global-state-update-gen").unwrap(),
        Project::GlobalStateUpdateGen
    );
    assert_eq!(
        Project::parse("makefile-build-contracts").unwrap(),
        Project::MakefileBuildContractsRs
    );
    assert!(Project::parse("unknown").is_err());
}

#[test]
fn checkout_defaults_name_their_repos() {
    assert_eq!(build_dir(), "xcasper-staging");
    let c = CheckoutGitRepo::db_utils_defaults();
    assert_eq!(
        c.git_url,
        "https://github.com/casper-network/casper-db-utils"
    );
    assert_eq!(c.branch, "dev");
    assert_eq!(c.remote, "origin");
    assert_eq!(c.base_path, "xcasper-staging");
    assert_eq!(c.local_checkout_name, "casper-db-utils");
    assert!(!c.update_from_remote);
    assert_eq!(c.target_path(), "xcasper-staging/casper-db-utils");

    assert_eq!(
        CheckoutGitRepo::client_defaults().local_checkout_name,
        "casper-client"
    );
    assert_eq!(
        CheckoutGitRepo::node_defaults().local_checkout_name,
        "casper-node"
    );
    assert_eq!(
        CheckoutGitRepo::global_state_update_gen_defaults().local_checkout_name,
        "casper-node"
    );
    assert_eq!(
        CheckoutGitRepo::launcher_defaults().local_checkout_name,
        "casper-node-launcher"
    );
}

#[test]
fn cargo_builds_are_planned_exactly() {
    let cargo = CargoBuildRustProject::new("ck".to_string(), "casper-node", false);
    assert_eq!(
        cargo.build_args(),
        vec!["build", "--package", "casper-node", "--release"]
    );
    let artifacts = cargo.artifacts();
    assert_eq!(artifacts.path, "ck/target/release");
    assert_eq!(artifacts.files, vec!["casper-node"]);

    let debug = CargoBuildRustProject::new("ck".to_string(), "casper-node", true);
    assert_eq!(debug.build_args(), vec!["build", "--package", "casper-node"]);
    assert_eq!(debug.artifacts().path, "ck/target/debug");
}

#[test]
fn compile_options_pair_projects_with_packages() {
    let compile = Compile {
        project: Project::Launcher,
        existing_checkout: None,
        debug: false,
    };
    let checkout = compile.checkout_plan().unwrap();
    assert_eq!(checkout.local_checkout_name, "casper-node");
    match compile.compile_options("ck".to_string()) {
        BuildProject::Cargo(c) => {
            assert_eq!(c.package_name, "global-state-update-gen");
            assert_eq!(c.target_path, "ck");
        }
        other => panic!("expected a cargo build, got {:?}", other),
    }

    let existing = Compile {
        project: Project::Node,
        existing_checkout: Some("here".to_string()),
        debug: true,
    };
    assert!(existing.checkout_plan().is_none());

    let make = Compile {
        project: Project::MakefileBuildContractsRs,
        existing_checkout: None,
        debug: false,
    };
    match make.compile_options("ck".to_string()) {
        BuildProject::Make {
            makefile_root,
            target,
            build_dir,
            artifact_suffix,
        } => {
            assert_eq!(makefile_root, "ck");
            assert_eq!(target, "build-contracts-rs");
            assert_eq!(build_dir, "ck/target/wasm32-unknown-unknown/release");
            assert_eq!(artifact_suffix, ".wasm");
        }
        other => panic!("expected a make build, got {:?}", other),
    }
}

#[test]
fn artifact_filtering_by_regex() {
    let names = vec![
        "file1.txt".to_string(),
        "file2.txt".to_string(),
        "file3.log".to_string(),
    ];
    let ba = BuildArtifacts::from_names_matching("dir".to_string(), &names, r".*\.txt$").unwrap();
    assert_eq!(ba.path, "dir");
    assert_eq!(ba.files, vec!["file1.txt", "file2.txt"]);

    assert!(BuildArtifacts::from_names_matching("dir".to_string(), &names, "(").is_err());

    let exact =
        BuildArtifacts::from_names_matching("dir".to_string(), &names, r"^file3\.log$").unwrap();
    assert_eq!(exact.files, vec!["file3.log"]);
}

#[test]
fn artifact_presence_and_copy_plan() {
    let ba = BuildArtifacts::new(
        "out".to_string(),
        vec!["a.bin".to_string(), "b.bin".to_string()],
    );
    assert!(ba.files_exist_given(&vec![true, true]));
    assert!(!ba.files_exist_given(&vec![true, false]));
    let empty = BuildArtifacts::new("out".to_string(), Vec::new());
    assert!(!empty.files_exist_given(&Vec::new()));

    let plan = ba.copy_plan(&"dest".to_string());
    assert_eq!(plan.len(), 2);
    assert_eq!(plan[0].0, "out/a.bin");
    assert_eq!(plan[0].1, "dest/a.bin");
    assert_eq!(plan[1].0, "out/b.bin");
    assert_eq!(plan[1].1, "dest/b.bin");
}

#[test]
fn test_find_files_with_suffix_at_path() {
    let names = vec!["test_file.txt".to_string(), "other.log".to_string()];
    let files = find_files_with_suffix(&names, &".txt".to_string());
    assert_eq!(files.len(), 1);
    assert_eq!(files[0], "test_file.txt");
}

#[test]
fn string_helpers() {
    assert!(str_eq("abc", "abc"));
    assert!(!str_eq("abc", "abd"));
    assert!(!str_eq("abc", "ab"));
    assert!(str_ends_with("casper-node.wasm", ".wasm"));
    assert!(!str_ends_with("casper-node.wasm", ".txt"));
    assert!(!str_ends_with("sm", ".wasm"));
}
