use memory_mcp::store::{
    get_memories, render_entry, render_memories, save_memory, MemoryStore, StoreError,
};

#[test]
fn test_save_and_retrieve_memory() {
    let mut store = MemoryStore::new();

    let content = "User prefers dark mode and uses Rust for development";
    let result = save_memory(&mut store, content, 1700000000);
    assert!(result.is_ok(), "Should successfully save memory");

    let retrieved = get_memories(&store).expect("Should retrieve memories");
    assert!(
        retrieved.contains(content),
        "Retrieved memory should contain saved content"
    );
}

#[test]
fn test_get_memories_when_file_does_not_exist() {
    let store = MemoryStore::new();

    let result = get_memories(&store).expect("Should return default message");
    assert_eq!(result, "No memories found yet.");
}

#[test]
fn test_multiple_memories() {
    let mut store = MemoryStore::new();

    save_memory(&mut store, "First memory: likes coffee", 1700000000)
        .expect("Should save first memory");
    save_memory(&mut store, "Second memory: uses Vim", 1700000060)
        .expect("Should save second memory");
    save_memory(&mut store, "Third memory: works remotely", 1700000120)
        .expect("Should save third memory");

    let all_memories = get_memories(&store).expect("Should retrieve all memories");

    assert!(all_memories.contains("First memory: likes coffee"));
    assert!(all_memories.contains("Second memory: uses Vim"));
    assert!(all_memories.contains("Third memory: works remotely"));
}

#[test]
fn test_empty_file_returns_no_memories() {
    let store = MemoryStore::holding(String::new());

    let result = get_memories(&store).expect("Should return default message");
    assert_eq!(result, "No memories found yet.");
}

#[test]
fn an_entry_is_heading_note_and_empty_line() {
    assert_eq!(
        render_entry(0, "User likes coffee"),
        "## 1970-01-01 00:00\nUser likes coffee\n\n"
    );
    assert_eq!(
        render_entry(1709251199, "leap"),
        "## 2024-02-29 23:59\nleap\n\n"
    );
}

#[test]
fn an_entry_takes_the_note_as_it_is() {
    assert_eq!(render_entry(60, ""), "## 1970-01-01 00:01\n\n\n");
    assert_eq!(render_entry(60, "  "), "## 1970-01-01 00:01\n  \n\n");
    assert_eq!(
        render_entry(60, "two\nlines"),
        "## 1970-01-01 00:01\ntwo\nlines\n\n"
    );
    assert_eq!(
        render_entry(60, "## not a heading"),
        "## 1970-01-01 00:01\n## not a heading\n\n"
    );
}

#[test]
fn nothing_at_the_place_of_the_log_reads_as_no_memories() {
    assert_eq!(render_memories(None), "No memories found yet.");
}

#[test]
fn a_blank_log_reads_as_no_memories() {
    assert_eq!(render_memories(Some("")), "No memories found yet.");
    assert_eq!(render_memories(Some(" ")), "No memories found yet.");
    assert_eq!(render_memories(Some("\n\n\t \r\n")), "No memories found yet.");
    assert_eq!(render_memories(Some("\u{00A0}\u{3000}")), "No memories found yet.");
}

#[test]
fn a_log_is_read_as_it_stands() {
    assert_eq!(render_memories(Some("x")), "x");
    assert_eq!(render_memories(Some("  x  \n")), "  x  \n");
    let log = "## 1970-01-01 00:00\nfirst\n\n## 1970-01-01 00:01\nsecond\n\n";
    assert_eq!(render_memories(Some(log)), log);
}

#[test]
fn a_store_with_a_blank_log_has_no_memories() {
    let store = MemoryStore::holding(String::from("  \n \t\n"));
    assert_eq!(get_memories(&store), Ok(String::from("No memories found yet.")));
}

#[test]
fn a_new_store_holds_no_log() {
    let store = MemoryStore::new();
    assert_eq!(store.contents(), None);
}

#[test]
fn saving_starts_the_log() {
    let mut store = MemoryStore::new();
    assert_eq!(save_memory(&mut store, "first", 0), Ok(()));
    assert_eq!(store.contents(), Some("## 1970-01-01 00:00\nfirst\n\n"));
    assert_eq!(
        get_memories(&store),
        Ok(String::from("## 1970-01-01 00:00\nfirst\n\n"))
    );
}

#[test]
fn saving_adds_at_the_end_of_the_log() {
    let mut store = MemoryStore::holding(String::from("kept as it is\n"));
    assert_eq!(save_memory(&mut store, "first", 0), Ok(()));
    assert_eq!(save_memory(&mut store, "second", 86400), Ok(()));
    assert_eq!(
        store.contents(),
        Some("kept as it is\n## 1970-01-01 00:00\nfirst\n\n## 1970-01-02 00:00\nsecond\n\n")
    );
}

#[test]
fn saving_to_a_blank_log_makes_it_readable() {
    let mut store = MemoryStore::holding(String::from("\n\n"));
    assert_eq!(get_memories(&store), Ok(String::from("No memories found yet.")));
    assert_eq!(save_memory(&mut store, "note", 0), Ok(()));
    assert_eq!(
        get_memories(&store),
        Ok(String::from("\n\n## 1970-01-01 00:00\nnote\n\n"))
    );
}

#[test]
fn an_empty_note_is_saved_and_read() {
    let mut store = MemoryStore::new();
    assert_eq!(save_memory(&mut store, "", 0), Ok(()));
    let read = get_memories(&store).expect("a usable store reads");
    assert_eq!(read, "## 1970-01-01 00:00\n\n\n");
    assert!(read.contains(""));
}

#[test]
fn a_note_of_white_space_is_saved_and_read() {
    let mut store = MemoryStore::new();
    let note = " \t \u{00A0}";
    assert_eq!(save_memory(&mut store, note, 0), Ok(()));
    let read = get_memories(&store).expect("a usable store reads");
    assert_ne!(read, "No memories found yet.");
    assert!(read.contains(note));
}

#[test]
fn memories_are_read_in_the_order_of_saving() {
    let mut store = MemoryStore::new();
    let notes: [&str; 3] = ["alpha", "beta", "gamma"];
    let mut instant: i64 = 1700000000;
    for note in notes {
        assert_eq!(save_memory(&mut store, note, instant), Ok(()));
        instant += 60;
    }
    let read = get_memories(&store).expect("a usable store reads");
    let first: usize = read.find("alpha").expect("the first note is there");
    let second: usize = read.find("beta").expect("the second note is there");
    let third: usize = read.find("gamma").expect("the third note is there");
    assert!(first + "alpha".len() <= second);
    assert!(second + "beta".len() <= third);
    assert_eq!(
        read,
        "## 2023-11-14 22:13\nalpha\n\n## 2023-11-14 22:14\nbeta\n\n## 2023-11-14 22:15\ngamma\n\n"
    );
}

#[test]
fn equal_notes_are_each_kept() {
    let mut store = MemoryStore::new();
    assert_eq!(save_memory(&mut store, "same", 0), Ok(()));
    assert_eq!(save_memory(&mut store, "same", 0), Ok(()));
    let read = get_memories(&store).expect("a usable store reads");
    assert_eq!(read.matches("same").count(), 2);
}

#[test]
fn an_unusable_store_fails_to_save() {
    let mut store = MemoryStore::unusable(String::from("Permission denied (os error 13)"));
    assert_eq!(
        save_memory(&mut store, "note", 0),
        Err(StoreError::IoFailure { message: String::from("Permission denied (os error 13)") })
    );
    assert_eq!(store.contents(), None);
}

#[test]
fn an_unusable_store_fails_to_read() {
    let store = MemoryStore::unusable(String::from("Is a directory (os error 21)"));
    assert_eq!(
        get_memories(&store),
        Err(StoreError::IoFailure { message: String::from("Is a directory (os error 21)") })
    );
}

#[test]
fn a_failed_save_leaves_nothing_behind() {
    let mut store = MemoryStore::unusable(String::from("disk full"));
    assert!(save_memory(&mut store, "note", 0).is_err());
    assert!(get_memories(&store).is_err());
    assert_eq!(store.contents(), None);
}

#[test]
fn a_store_error_says_what_failed() {
    let error = StoreError::IoFailure { message: String::from("disk full") };
    assert_eq!(error.message(), "disk full");
}
