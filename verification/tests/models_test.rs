use erusert::models::EruModel;
use erusert::setup::model_choices;

#[test]
fn model_from_key_mapping() {
    assert!(matches!(EruModel::from_key('p'), Some(EruModel::FullStrium)));
    assert!(matches!(EruModel::from_key('u'), Some(EruModel::Assistant)));
    assert!(matches!(EruModel::from_key('q'), Some(EruModel::TerminalEru)));
    assert!(matches!(EruModel::from_key('z'), Some(EruModel::Exathry)));
    assert!(matches!(EruModel::from_key('2'), Some(EruModel::AvlEru)));
    assert!(EruModel::from_key('x').is_none());
}

#[test]
fn full_strium_is_dangerous_others_are_not() {
    assert!(EruModel::FullStrium.is_dangerous());
    assert!(!EruModel::Assistant.is_dangerous());
    assert!(!EruModel::TerminalEru.is_dangerous());
    assert!(!EruModel::Exathry.is_dangerous());
    assert!(!EruModel::AvlEru.is_dangerous());
}

#[test]
fn model_keys_ignore_case() {
    assert_eq!(EruModel::from_key('P'), Some(EruModel::FullStrium));
    assert_eq!(EruModel::from_key('U'), Some(EruModel::Assistant));
    assert_eq!(EruModel::from_key('Q'), Some(EruModel::TerminalEru));
    assert_eq!(EruModel::from_key('Z'), Some(EruModel::Exathry));
    assert_eq!(EruModel::from_key('@'), None);
}

#[test]
fn model_sizes_and_labels() {
    assert_eq!(EruModel::FullStrium.download_size_mb(), 2400);
    assert_eq!(EruModel::Assistant.download_size_mb(), 380);
    assert_eq!(EruModel::TerminalEru.download_size_mb(), 520);
    assert_eq!(EruModel::Exathry.download_size_mb(), 180);
    assert_eq!(EruModel::AvlEru.download_size_mb(), 95);
    assert_eq!(
        EruModel::Assistant.label(),
        "B. Assistant/Friend (u)    RECOMMENDED - new friend yay :D"
    );
    assert_eq!(
        EruModel::AvlEru.label(),
        "E. Avl-Eru (2)             Most fastest of all Eru models"
    );
}

#[test]
fn model_menu_order() {
    assert_eq!(
        model_choices(),
        vec![
            EruModel::FullStrium,
            EruModel::Assistant,
            EruModel::TerminalEru,
            EruModel::Exathry,
            EruModel::AvlEru
        ]
    );
}

#[test]
fn model_labels_letters_and_markers() {
    let ms = [
        EruModel::FullStrium,
        EruModel::Assistant,
        EruModel::TerminalEru,
        EruModel::Exathry,
        EruModel::AvlEru,
    ];
    let prefixes = ["A. ", "B. ", "C. ", "D. ", "E. "];
    for i in 0..5 {
        assert!(ms[i].label().starts_with(prefixes[i]));
        assert_eq!(ms[i].label().contains("NOT RECOMMENDED"), ms[i].is_dangerous());
        for j in 0..5 {
            if i != j {
                assert_ne!(ms[i].label(), ms[j].label());
            }
        }
    }
    assert!(EruModel::Assistant.label().contains("RECOMMENDED"));
}
