use pe_plugin_loader::activation::PluginKind;
use pe_plugin_loader::invocation::{classify_input, classify_lowered, Invocation};
use pe_plugin_loader::naming::{name_from_indices, random_name};

#[test]
fn main_word_activates_everything_in_any_case() {
    assert_eq!(classify_input("MAIN"), Invocation::ActivateAll);
    assert_eq!(classify_input("main"), Invocation::ActivateAll);
}

#[test]
fn plugin_path_is_classified_by_extension() {
    assert_eq!(
        classify_input("\"D:\\Apps\\X.CE"),
        Invocation::LoadPlugin { kind: PluginKind::Ce, path: "D:\\Apps\\X.CE".to_string() }
    );
    assert_eq!(
        classify_input("d:\\p.7Z"),
        Invocation::LoadPlugin { kind: PluginKind::Edgeless, path: "d:\\p.7Z".to_string() }
    );
    assert_eq!(
        classify_input("m.Hpm"),
        Invocation::LoadPlugin { kind: PluginKind::Hpm, path: "m.Hpm".to_string() }
    );
}

#[test]
fn other_arguments_are_unsupported() {
    assert_eq!(classify_input("setup.exe"), Invocation::Unsupported);
    assert_eq!(classify_input(""), Invocation::Unsupported);
    assert_eq!(classify_lowered("x.txt", "X.TXT"), Invocation::Unsupported);
}

#[test]
fn random_names_have_requested_length_and_alphabet() {
    let n = random_name(15);
    assert_eq!(n.chars().count(), 15);
    assert!(n.chars().all(|c| c.is_ascii_alphanumeric()));
    assert_eq!(random_name(0), "");
}

#[test]
fn names_from_indices_pick_alphabet_characters() {
    assert_eq!(name_from_indices(&vec![0, 25, 26, 51, 52, 61]), "azAZ09");
}
