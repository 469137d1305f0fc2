use fiatlux_ecs::components::display::DisplayComponent;
use fiatlux_ecs::components::storage::{ItemSlot, StorageComponent};

fn counts(storage: &StorageComponent) -> Vec<(String, i32)> {
    storage.item_slots.iter().map(|s| (s.item_id.clone(), s.count)).collect()
}

#[test]
fn item_slot_is_cut_to_its_stack_size() {
    let slot = ItemSlot::new("iron".to_string(), 100, 64);
    assert_eq!((slot.count, slot.max_stack_size), (64, 64));
    assert!(slot.is_full());
    assert_eq!(slot.remaining_space(), 0);
    let open = ItemSlot::new("iron".to_string(), 10, 64);
    assert_eq!(open.count, 10);
    assert!(!open.is_full());
    assert_eq!(open.remaining_space(), 54);
}

#[test]
fn adding_fills_open_stacks_then_opens_new_ones() {
    let mut storage = StorageComponent::new(2);
    assert!(storage.has_space());
    assert_eq!((storage.used_slots(), storage.free_slots()), (0, 2));
    assert_eq!(storage.try_add_item("iron".to_string(), 100, 64), 100);
    assert_eq!(counts(&storage), vec![("iron".to_string(), 64), ("iron".to_string(), 36)]);
    assert!(!storage.has_space());
    assert_eq!((storage.used_slots(), storage.free_slots()), (2, 0));
    assert_eq!(storage.try_add_item("iron".to_string(), 50, 64), 28);
    assert_eq!(counts(&storage), vec![("iron".to_string(), 64), ("iron".to_string(), 64)]);
    assert_eq!(storage.try_add_item("iron".to_string(), 1, 64), 0);
    assert_eq!(storage.try_add_item("gold".to_string(), 1, 64), 0);
    assert_eq!(storage.get_item_count("iron"), 128);
    assert_eq!(storage.get_item_count("gold"), 0);
}

#[test]
fn adding_keeps_kinds_apart() {
    let mut storage = StorageComponent::new(4);
    assert_eq!(storage.try_add_item("iron".to_string(), 10, 64), 10);
    assert_eq!(storage.try_add_item("gold".to_string(), 70, 64), 70);
    assert_eq!(storage.try_add_item("iron".to_string(), 60, 64), 60);
    assert_eq!(
        counts(&storage),
        vec![
            ("iron".to_string(), 64),
            ("gold".to_string(), 64),
            ("gold".to_string(), 6),
            ("iron".to_string(), 6),
        ]
    );
    assert_eq!(storage.find_item_slot("iron"), Some(3));
    assert_eq!(storage.find_item_slot("gold"), Some(2));
    assert_eq!(storage.find_item_slot("coal"), None);
    assert!(storage.contains_item("iron", 70));
    assert!(!storage.contains_item("iron", 71));
    assert!(storage.contains_item("coal", 0));
    assert!(!storage.contains_item("coal", 1));
    assert_eq!(storage.checked_item_count("gold"), Some(70));
}

#[test]
fn adding_nothing_or_with_no_stack_size_changes_nothing() {
    let mut storage = StorageComponent::new(3);
    assert_eq!(storage.try_add_item("iron".to_string(), 0, 64), 0);
    assert_eq!(storage.try_add_item("iron".to_string(), -5, 64), 0);
    assert_eq!(storage.try_add_item("iron".to_string(), 5, 0), 0);
    assert_eq!(storage.try_add_item("iron".to_string(), 5, -1), 0);
    assert!(storage.item_slots.is_empty());
    let mut none = StorageComponent::new(0);
    assert!(!none.has_space());
    assert_eq!(none.try_add_item("iron".to_string(), 5, 64), 0);
    let mut negative = StorageComponent::new(-3);
    assert!(!negative.has_space());
    assert_eq!(negative.try_add_item("iron".to_string(), 5, 64), 0);
    assert_eq!(negative.free_slots(), -3);
}

#[test]
fn removing_takes_from_the_first_stacks_and_frees_their_slots() {
    let mut storage = StorageComponent::new(3);
    storage.try_add_item("iron".to_string(), 128, 64);
    storage.try_add_item("gold".to_string(), 5, 64);
    assert_eq!(storage.try_remove_item("iron", 70), 70);
    assert_eq!(counts(&storage), vec![("iron".to_string(), 58), ("gold".to_string(), 5)]);
    assert_eq!(storage.try_remove_item("iron", 100), 58);
    assert_eq!(counts(&storage), vec![("gold".to_string(), 5)]);
    assert_eq!(storage.try_remove_item("iron", 1), 0);
    assert_eq!(storage.try_remove_item("gold", 0), 0);
    assert_eq!(storage.try_remove_item("gold", -4), 0);
    assert_eq!(storage.try_remove_item("gold", 5), 5);
    assert!(storage.item_slots.is_empty());
    assert_eq!(storage.try_remove_item("gold", 5), 0);
}

#[test]
fn removing_conserves_the_other_kinds() {
    let mut storage = StorageComponent::new(5);
    storage.try_add_item("a".to_string(), 3, 2);
    storage.try_add_item("b".to_string(), 3, 2);
    assert_eq!(
        counts(&storage),
        vec![
            ("a".to_string(), 2),
            ("a".to_string(), 1),
            ("b".to_string(), 2),
            ("b".to_string(), 1),
        ]
    );
    assert_eq!(storage.try_remove_item("b", 2), 2);
    assert_eq!(
        counts(&storage),
        vec![("a".to_string(), 2), ("a".to_string(), 1), ("b".to_string(), 1)]
    );
    assert_eq!(storage.get_item_count("a"), 3);
    assert_eq!(storage.get_item_count("b"), 1);
    storage.clear();
    assert!(storage.item_slots.is_empty());
    assert_eq!(storage.max_slots, 5);
    assert_eq!(StorageComponent::default().max_slots, 9);
}

#[test]
fn display_keeps_short_text_and_cuts_long_text() {
    let mut display = DisplayComponent::new("hello world".to_string());
    assert_eq!(display.max_length, 256);
    assert_eq!(display.get_display_text(), "hello world");
    assert_eq!(display.text_length(), 11);
    assert!(display.has_content());
    display = display.with_max_length(8);
    assert_eq!(display.get_display_text(), "hello...");
    assert_eq!(display.text_length(), 8);
    display.set_text("12345678".to_string());
    assert_eq!(display.get_display_text(), "12345678");
    display.set_text("123456789".to_string());
    assert_eq!(display.get_display_text(), "12345...");
    display.set_text("ab".to_string());
    display.append_text("cd");
    assert_eq!(display.get_display_text(), "abcd");
    display.append_text("efghi");
    assert_eq!(display.get_display_text(), "abcde...");
    display.clear();
    assert!(!display.has_content());
    assert_eq!(display.text_length(), 0);
    assert_eq!(display.get_display_text(), "");
}

#[test]
fn display_counts_bytes_and_refuses_to_split_a_character() {
    let mut display = DisplayComponent::new(String::new()).with_max_length(8);
    assert!(display.try_set_text("ab\u{e9}d".to_string()));
    assert_eq!(display.text_length(), 5);
    assert_eq!(display.get_display_text(), "ab\u{e9}d");
    assert!(display.try_set_text("abcd\u{e9}xy".to_string()));
    assert_eq!(display.text_length(), 8);
    assert!(display.try_set_text("abc\u{e9}wxyz".to_string()));
    assert_eq!(display.get_display_text(), "abc\u{e9}...");
    assert!(!display.try_set_text("abcd\u{e9}wxyz".to_string()));
    assert_eq!(display.get_display_text(), "abc\u{e9}...");
    let mut tiny = DisplayComponent::new(String::new()).with_max_length(2);
    assert!(tiny.try_set_text("ab".to_string()));
    assert!(!tiny.try_set_text("abc".to_string()));
    assert_eq!(tiny.get_display_text(), "ab");
}

#[test]
fn hidden_display_shows_nothing() {
    let mut display = DisplayComponent::new("secret text".to_string());
    display.set_visible(false);
    assert_eq!(display.get_display_text(), "");
    assert!(display.has_content());
    assert_eq!(display.text_length(), 11);
    assert!(display.format_for_display(80).is_empty());
    display.set_visible(true);
    assert_eq!(display.get_display_text(), "secret text");
    let fresh = DisplayComponent::default();
    assert!(fresh.is_visible && !fresh.has_content());
}

#[test]
fn text_is_set_in_lines_word_by_word() {
    let display = DisplayComponent::new("the quick brown fox jumps".to_string());
    assert_eq!(display.format_for_display(10), vec!["the quick", "brown fox", "jumps"]);
    assert_eq!(display.format_for_display(9), vec!["the quick", "brown fox", "jumps"]);
    assert_eq!(display.format_for_display(8), vec!["the", "quick", "brown", "fox", "jumps"]);
    assert_eq!(display.format_for_display(100), vec!["the quick brown fox jumps"]);
    assert_eq!(display.format_for_display(0), vec!["the", "quick", "brown", "fox", "jumps"]);
    assert_eq!(display.format_for_display(3), vec!["the", "quick", "brown", "fox", "jumps"]);
}

#[test]
fn white_space_of_any_kind_parts_words() {
    let display = DisplayComponent::new("  a\t\nb \u{a0}c\u{3000}d\u{2003}e  ".to_string());
    assert_eq!(display.format_for_display(100), vec!["a b c d e"]);
    assert_eq!(display.format_for_display(3), vec!["a b", "c d", "e"]);
    let blank = DisplayComponent::new(" \t \n ".to_string());
    assert!(blank.format_for_display(10).is_empty());
    let empty = DisplayComponent::new(String::new());
    assert!(empty.format_for_display(10).is_empty());
    let wide = DisplayComponent::new("\u{e9}\u{e9} \u{e9}".to_string());
    assert_eq!(wide.format_for_display(7), vec!["\u{e9}\u{e9} \u{e9}"]);
    assert_eq!(wide.format_for_display(6), vec!["\u{e9}\u{e9}", "\u{e9}"]);
    let same = "a\u{200b}b".split_whitespace().count();
    let joined = DisplayComponent::new("a\u{200b}b".to_string());
    assert_eq!(joined.format_for_display(100).len(), same);
}
