use vstd::prelude::*;

verus! {

/// One group of the catalog: a named book with a known chapter count.
#[derive(Clone, Debug)]
pub struct BibleBook {
    /// Unique id, ascending; also the remote path segment for this book.
    pub id: u32,
    /// Human-readable book name; becomes the local directory name once sanitized.
    pub name: String,
    /// Number of chapters, each one work item.
    pub chapters: u32,
}

/// The fixed table behind the catalog: name and chapter count of every book,
/// in canonical order.
pub open spec fn catalog_model() -> Seq<(Seq<char>, u32)> {
    seq![
        ("Genesis"@, 50u32),
        ("Exodus"@, 40u32),
        ("Leviticus"@, 27u32),
        ("Numbers"@, 36u32),
        ("Deuteronomy"@, 34u32),
        ("Joshua"@, 24u32),
        ("Judges"@, 21u32),
        ("Ruth"@, 4u32),
        ("1 Samuel"@, 31u32),
        ("2 Samuel"@, 24u32),
        ("1 Kings"@, 22u32),
        ("2 Kings"@, 25u32),
        ("1 Chronicles"@, 29u32),
        ("2 Chronicles"@, 36u32),
        ("Ezra"@, 10u32),
        ("Nehemiah"@, 13u32),
        ("Esther"@, 10u32),
        ("Job"@, 42u32),
        ("Psalms"@, 150u32),
        ("Proverbs"@, 31u32),
        ("Ecclesiastes"@, 12u32),
        ("Song of Solomon"@, 8u32),
        ("Isaiah"@, 66u32),
        ("Jeremiah"@, 52u32),
        ("Lamentations"@, 5u32),
        ("Ezekiel"@, 48u32),
        ("Daniel"@, 12u32),
        ("Hosea"@, 14u32),
        ("Joel"@, 3u32),
        ("Amos"@, 9u32),
        ("Obadiah"@, 1u32),
        ("Jonah"@, 4u32),
        ("Micah"@, 7u32),
        ("Nahum"@, 3u32),
        ("Habakkuk"@, 3u32),
        ("Zephaniah"@, 3u32),
        ("Haggai"@, 2u32),
        ("Zechariah"@, 14u32),
        ("Malachi"@, 4u32),
        ("Matthew"@, 28u32),
        ("Mark"@, 16u32),
        ("Luke"@, 24u32),
        ("John"@, 21u32),
        ("Acts"@, 28u32),
        ("Romans"@, 16u32),
        ("1 Corinthians"@, 16u32),
        ("2 Corinthians"@, 13u32),
        ("Galatians"@, 6u32),
        ("Ephesians"@, 6u32),
        ("Philippians"@, 4u32),
        ("Colossians"@, 4u32),
        ("1 Thessalonians"@, 5u32),
        ("2 Thessalonians"@, 3u32),
        ("1 Timothy"@, 6u32),
        ("2 Timothy"@, 4u32),
        ("Titus"@, 3u32),
        ("Philemon"@, 1u32),
        ("Hebrews"@, 13u32),
        ("James"@, 5u32),
        ("1 Peter"@, 5u32),
        ("2 Peter"@, 3u32),
        ("1 John"@, 5u32),
        ("2 John"@, 1u32),
        ("3 John"@, 1u32),
        ("Jude"@, 1u32),
        ("Revelation"@, 22u32),
    ]
}

/// A catalog sequence agrees with the fixed table: one entry per book, ids
/// ascending from one, names and chapter counts as tabulated.
pub open spec fn catalog_wf(books: Seq<BibleBook>) -> bool {
    &&& books.len() == catalog_model().len()
    &&& forall|i: int|
        0 <= i < books.len() ==> {
            &&& (#[trigger] books[i]).id == i + 1
            &&& books[i].name@ == catalog_model()[i].0
            &&& books[i].chapters == catalog_model()[i].1
        }
}

fn push_book(v: &mut Vec<BibleBook>, name: &str, chapters: u32)
    requires
        old(v)@.len() < u32::MAX,
    ensures
        final(v)@.len() == old(v)@.len() + 1,
        final(v)@.last().id == old(v)@.len() + 1,
        final(v)@.last().name@ == name@,
        final(v)@.last().chapters == chapters,
        final(v)@.drop_last() =~= old(v)@,
{
    let id: u32 = (v.len() as u32) + 1;
    v.push(BibleBook { id, name: String::from_str(name), chapters });
}

/// The full catalog, ascending by id, as the fixed table gives it.
#[verifier::rlimit(100)]
pub fn bible_catalog() -> (r: Vec<BibleBook>)
    ensures
        catalog_wf(r@),
        total_chapters(r@) == 1189,
{
    let mut v: Vec<BibleBook> = Vec::new();
    push_book(&mut v, "Genesis", 50);
    push_book(&mut v, "Exodus", 40);
    push_book(&mut v, "Leviticus", 27);
    push_book(&mut v, "Numbers", 36);
    push_book(&mut v, "Deuteronomy", 34);
    push_book(&mut v, "Joshua", 24);
    push_book(&mut v, "Judges", 21);
    push_book(&mut v, "Ruth", 4);
    push_book(&mut v, "1 Samuel", 31);
    push_book(&mut v, "2 Samuel", 24);
    push_book(&mut v, "1 Kings", 22);
    push_book(&mut v, "2 Kings", 25);
    push_book(&mut v, "1 Chronicles", 29);
    push_book(&mut v, "2 Chronicles", 36);
    push_book(&mut v, "Ezra", 10);
    push_book(&mut v, "Nehemiah", 13);
    push_book(&mut v, "Esther", 10);
    push_book(&mut v, "Job", 42);
    push_book(&mut v, "Psalms", 150);
    push_book(&mut v, "Proverbs", 31);
    push_book(&mut v, "Ecclesiastes", 12);
    push_book(&mut v, "Song of Solomon", 8);
    push_book(&mut v, "Isaiah", 66);
    push_book(&mut v, "Jeremiah", 52);
    push_book(&mut v, "Lamentations", 5);
    push_book(&mut v, "Ezekiel", 48);
    push_book(&mut v, "Daniel", 12);
    push_book(&mut v, "Hosea", 14);
    push_book(&mut v, "Joel", 3);
    push_book(&mut v, "Amos", 9);
    push_book(&mut v, "Obadiah", 1);
    push_book(&mut v, "Jonah", 4);
    push_book(&mut v, "Micah", 7);
    push_book(&mut v, "Nahum", 3);
    push_book(&mut v, "Habakkuk", 3);
    push_book(&mut v, "Zephaniah", 3);
    push_book(&mut v, "Haggai", 2);
    push_book(&mut v, "Zechariah", 14);
    push_book(&mut v, "Malachi", 4);
    push_book(&mut v, "Matthew", 28);
    push_book(&mut v, "Mark", 16);
    push_book(&mut v, "Luke", 24);
    push_book(&mut v, "John", 21);
    push_book(&mut v, "Acts", 28);
    push_book(&mut v, "Romans", 16);
    push_book(&mut v, "1 Corinthians", 16);
    push_book(&mut v, "2 Corinthians", 13);
    push_book(&mut v, "Galatians", 6);
    push_book(&mut v, "Ephesians", 6);
    push_book(&mut v, "Philippians", 4);
    push_book(&mut v, "Colossians", 4);
    push_book(&mut v, "1 Thessalonians", 5);
    push_book(&mut v, "2 Thessalonians", 3);
    push_book(&mut v, "1 Timothy", 6);
    push_book(&mut v, "2 Timothy", 4);
    push_book(&mut v, "Titus", 3);
    push_book(&mut v, "Philemon", 1);
    push_book(&mut v, "Hebrews", 13);
    push_book(&mut v, "James", 5);
    push_book(&mut v, "1 Peter", 5);
    push_book(&mut v, "2 Peter", 3);
    push_book(&mut v, "1 John", 5);
    push_book(&mut v, "2 John", 1);
    push_book(&mut v, "3 John", 1);
    push_book(&mut v, "Jude", 1);
    push_book(&mut v, "Revelation", 22);
    proof {
        reveal_with_fuel(total_chapters, 67);
    }
    v
}

/// Sum of the chapter counts of a sequence of books: the total number of
/// work items the catalog yields.
pub open spec fn total_chapters(books: Seq<BibleBook>) -> int
    decreases books.len(),
{
    if books.len() == 0 {
        0
    } else {
        total_chapters(books.drop_last()) + books.last().chapters
    }
}

proof fn lemma_total_take_succ(s: Seq<BibleBook>, i: int)
    requires
        0 <= i < s.len(),
    ensures
        total_chapters(s.take(i + 1)) == total_chapters(s.take(i)) + s[i].chapters,
{
    assert(s.take(i + 1).drop_last() =~= s.take(i));
    assert(s.take(i + 1).last() == s[i]);
}

proof fn lemma_total_prefix_bound(s: Seq<BibleBook>, k: int)
    requires
        0 <= k <= s.len(),
    ensures
        total_chapters(s.take(k)) <= total_chapters(s),
    decreases s.len() - k,
{
    if k == s.len() {
        assert(s.take(k) =~= s);
    } else {
        lemma_total_take_succ(s, k);
        lemma_total_prefix_bound(s, k + 1);
    }
}

/// Count every work item of the given books, refusing to answer rather than
/// wrap around where the sum does not fit the machine.
pub fn total_files(books: &Vec<BibleBook>) -> (n: Option<usize>)
    ensures
        match n {
            Some(t) => t == total_chapters(books@),
            None => total_chapters(books@) > usize::MAX,
        },
{
    let mut acc: usize = 0;
    let mut i: usize = 0;
    while i < books.len()
        invariant
            i <= books@.len(),
            acc == total_chapters(books@.take(i as int)),
        decreases books@.len() - i,
    {
        let c = books[i].chapters as usize;
        if acc > usize::MAX - c {
            proof {
                lemma_total_take_succ(books@, i as int);
                lemma_total_prefix_bound(books@, i as int + 1);
            }
            return None;
        }
        acc = acc + c;
        proof {
            lemma_total_take_succ(books@, i as int);
        }
        i = i + 1;
    }
    proof {
        assert(books@.take(books@.len() as int) =~= books@);
    }
    Some(acc)
}

} // verus!
