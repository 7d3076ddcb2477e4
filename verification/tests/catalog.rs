use bible_audio::{bible_catalog, total_files, work_items, BibleAudioDownloader, BibleBook};

#[test]
fn the_catalog_has_every_book_in_order() {
    let books = bible_catalog();
    assert_eq!(books.len(), 66);
    for (i, book) in books.iter().enumerate() {
        assert_eq!(book.id as usize, i + 1);
        assert!(book.chapters >= 1);
    }
    assert_eq!(books[0].name, "Genesis");
    assert_eq!(books[0].chapters, 50);
    assert_eq!(books[18].name, "Psalms");
    assert_eq!(books[18].chapters, 150);
    assert_eq!(books[38].name, "Malachi");
    assert_eq!(books[39].name, "Matthew");
    assert_eq!(books[65].name, "Revelation");
    assert_eq!(books[65].chapters, 22);
}

#[test]
fn the_catalog_total_is_fixed() {
    let books = bible_catalog();
    assert_eq!(total_files(&books), Some(1189));
    let by_hand: u64 = books.iter().map(|b| b.chapters as u64).sum();
    assert_eq!(by_hand, 1189);
}

#[test]
fn total_of_an_empty_catalog_is_zero() {
    let books: Vec<BibleBook> = Vec::new();
    assert_eq!(total_files(&books), Some(0));
}

#[test]
fn a_new_downloader_is_aimed_at_the_mirror() {
    let d = BibleAudioDownloader::new("./luganda_bible_audio");
    assert_eq!(d.base_url, "https://www.wordproaudio.net/bibles/app/audio/42");
    assert_eq!(d.output_dir, "./luganda_bible_audio");
    assert_eq!(d.bible_books.len(), 66);
    assert_eq!(d.total_files(), 1189);
}

#[test]
fn the_downloader_enumerates_every_chapter() {
    let d = BibleAudioDownloader::new("out");
    let items = d.work_items();
    assert_eq!(items.len(), 1189);
    assert_eq!((items[0].book_id, items[0].book_name.as_str(), items[0].chapter), (1, "Genesis", 1));
    let last = &items[items.len() - 1];
    assert_eq!((last.book_id, last.book_name.as_str(), last.chapter), (66, "Revelation", 22));
    let url = d.chapter_url(last.book_id, last.chapter);
    assert_eq!(url, "https://www.wordproaudio.net/bibles/app/audio/42/66/22.mp3");
}

#[test]
fn full_catalog_items_stay_within_their_books() {
    let items = work_items(&bible_catalog());
    assert_eq!(items.len(), 1189);
    let genesis: Vec<_> = items.iter().filter(|w| w.book_id == 1).collect();
    assert_eq!(genesis.len(), 50);
    assert_eq!(genesis[0].chapter, 1);
    assert_eq!(genesis[49].chapter, 50);
}
