use boot_manager::bootspec::{
    BootJson, BootSpecPath, SpecialisationDescription, SpecialisationName, Specialisations,
    SystemConfigurationRoot, SCHEMA_VERSION,
};
use boot_manager::synthesize::{
    bootspec_path, describe_system, synthesize_schema_from_generation, FoundSpecialisation,
    SpecialisationSource, SystemFacts,
};

fn scaffold(system_version: &str, kernel_version: &str, kernel_params: &Vec<String>) -> SystemFacts {
    let generation = String::from("/tmp/generation");
    SystemFacts {
        generation: generation.clone(),
        system_version: String::from(system_version),
        kernel: format!("{}/kernel-modules/bzImage", generation),
        kernel_version: String::from(kernel_version),
        kernel_params: kernel_params.join(" "),
        initrd: format!("{}/initrd", generation),
    }
}

fn params() -> Vec<String> {
    ["udev.log_priority=3", "systemd.unified_cgroup_hierarchy=1", "loglevel=4"]
        .iter()
        .map(ToString::to_string)
        .collect::<Vec<_>>()
}

#[test]
fn no_bootspec_no_specialisation() {
    let system_version = String::from("test-version-1");
    let kernel_version = String::from("1.1.1-test1");
    let kernel_params = params();

    let facts = scaffold(&system_version, &kernel_version, &kernel_params);
    let generation = facts.generation.clone();
    let spec = describe_system(&facts);

    assert_eq!(
        spec,
        BootJson {
            schema_version: SCHEMA_VERSION,
            label: "NixOS test-version-1 (Linux 1.1.1-test1)".into(),
            kernel: format!("{}/kernel-modules/bzImage", generation),
            kernel_params,
            init: format!("{}/init", generation),
            initrd: format!("{}/initrd", generation),
            initrd_secrets: Some(format!("{}/append-initrd-secrets", generation)),
            specialisation: Specialisations::new(),
            toplevel: SystemConfigurationRoot(generation),
        }
    );
}

#[test]
fn with_bootspec_no_specialisation() {
    let system_version = String::from("test-version-3");
    let kernel_version = String::from("1.1.1-test3");
    let kernel_params = params();

    let facts = scaffold(&system_version, &kernel_version, &kernel_params);
    let generation = facts.generation.clone();
    let spec = describe_system(&facts);

    assert_eq!(
        spec,
        BootJson {
            schema_version: SCHEMA_VERSION,
            label: "NixOS test-version-3 (Linux 1.1.1-test3)".into(),
            kernel: format!("{}/kernel-modules/bzImage", generation),
            kernel_params,
            init: format!("{}/init", generation),
            initrd: format!("{}/initrd", generation),
            initrd_secrets: Some(format!("{}/append-initrd-secrets", generation)),
            specialisation: Specialisations::new(),
            toplevel: SystemConfigurationRoot(generation),
        }
    );
}

fn found(name: &str, described: bool) -> FoundSpecialisation {
    FoundSpecialisation {
        name: String::from(name),
        toplevel: format!("/tmp/generation/specialisation/{}", name),
        source: if described {
            SpecialisationSource::Described(scaffold("sub", "1.1.1-sub", &params()))
        } else {
            SpecialisationSource::Existing
        },
    }
}

#[test]
fn no_bootspec_with_specialisation_no_bootspec() {
    let facts = scaffold("test-version-2", "1.1.1-test2", &params());
    let specialisations = vec![found("spec1", true), found("spec2", true)];
    let out = synthesize_schema_from_generation(&facts, &specialisations, "/out");
    assert_eq!(out.directories, vec![String::from("/out"), String::from("/out/specialisation")]);
    assert_eq!(
        out.files.iter().map(|f| f.path.clone()).collect::<Vec<_>>(),
        vec![
            String::from("/out/specialisation/spec1.json"),
            String::from("/out/specialisation/spec2.json"),
            String::from("/out/boot.v1.json"),
        ]
    );
    assert_eq!(out.files[0].bootspec.label, "NixOS sub (Linux 1.1.1-sub)");
    let top = &out.files[2].bootspec;
    assert_eq!(top.label, "NixOS test-version-2 (Linux 1.1.1-test2)");
    assert_eq!(top.specialisation.len(), 2);
    assert_eq!(top.specialisation.name_at(1), &SpecialisationName(String::from("spec2")));
    assert_eq!(
        top.specialisation.description_at(1),
        &SpecialisationDescription {
            bootspec: BootSpecPath(String::from("/out/specialisation/spec2.json"))
        }
    );
}

#[test]
fn with_bootspec_with_specialisations_with_bootspec() {
    let facts = scaffold("test-version-4", "1.1.1-test4", &params());
    let specialisations = vec![found("spec1", false), found("spec2", false)];
    let out = synthesize_schema_from_generation(&facts, &specialisations, "/out");
    // Nothing is written for a specialisation that has a descriptor.
    assert_eq!(out.files.len(), 1);
    assert_eq!(out.files[0].path, "/out/boot.v1.json");
    assert_eq!(
        out.files[0].bootspec.specialisation.description_at(0),
        &SpecialisationDescription {
            bootspec: BootSpecPath(String::from("/tmp/generation/specialisation/spec1/boot.v1.json"))
        }
    );
    assert_eq!(bootspec_path("/out", &found("x", true)), "/out/specialisation/x.json");
    assert_eq!(
        bootspec_path("/out", &found("x", false)),
        "/tmp/generation/specialisation/x/boot.v1.json"
    );
}

#[test]
fn kernel_parameters_are_cut_at_blanks() {
    let mut facts = scaffold("v", "k", &vec![]);
    assert_eq!(describe_system(&facts).kernel_params, vec![String::new()]);
    facts.kernel_params = String::from("a  b\n");
    assert_eq!(
        describe_system(&facts).kernel_params,
        vec![String::from("a"), String::new(), String::from("b\n")]
    );
}
