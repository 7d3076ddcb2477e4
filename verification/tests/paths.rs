use bible_audio::{chapter_file_name, chapter_rel_path, chapter_url, sanitize_filename};

#[test]
fn sanitize_keeps_safe_names() {
    assert_eq!(sanitize_filename("Genesis"), "Genesis");
    assert_eq!(sanitize_filename("Song of Solomon"), "Song of Solomon");
    assert_eq!(sanitize_filename(""), "");
}

#[test]
fn sanitize_replaces_every_unsafe_character() {
    assert_eq!(sanitize_filename("a/b\\c:d*e?f\"g<h>i|j"), "a_b_c_d_e_f_g_h_i_j");
    assert_eq!(sanitize_filename("///"), "___");
    assert_eq!(sanitize_filename("?what: now*"), "_what_ now_");
}

#[test]
fn sanitize_preserves_length() {
    for name in ["Genesis", "a/b:c", "<>|?*", "no change at all", ""] {
        assert_eq!(sanitize_filename(name).chars().count(), name.chars().count());
    }
}

#[test]
fn chapter_file_names_are_zero_padded() {
    assert_eq!(chapter_file_name(1), "chapter-01.mp3");
    assert_eq!(chapter_file_name(9), "chapter-09.mp3");
    assert_eq!(chapter_file_name(10), "chapter-10.mp3");
    assert_eq!(chapter_file_name(99), "chapter-99.mp3");
    assert_eq!(chapter_file_name(150), "chapter-150.mp3");
    assert_eq!(chapter_file_name(0), "chapter-00.mp3");
}

#[test]
fn rel_path_joins_sanitized_dir_and_file() {
    assert_eq!(chapter_rel_path("A", 1), "A/chapter-01.mp3");
    assert_eq!(chapter_rel_path("B", 2), "B/chapter-02.mp3");
    assert_eq!(chapter_rel_path("1 Kings", 22), "1 Kings/chapter-22.mp3");
    assert_eq!(chapter_rel_path("odd/name", 3), "odd_name/chapter-03.mp3");
}

#[test]
fn rel_path_is_deterministic() {
    let first = chapter_rel_path("Psalms", 119);
    let second = chapter_rel_path("Psalms", 119);
    assert_eq!(first, second);
    assert_eq!(first, "Psalms/chapter-119.mp3");
}

#[test]
fn urls_join_base_book_and_chapter() {
    assert_eq!(
        chapter_url("https://www.wordproaudio.net/bibles/app/audio/42", 1, 2),
        "https://www.wordproaudio.net/bibles/app/audio/42/1/2.mp3"
    );
    assert_eq!(chapter_url("http://h", 66, 22), "http://h/66/22.mp3");
    assert_eq!(chapter_url("b", 10, 150), "b/10/150.mp3");
}
