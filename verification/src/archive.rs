//! What an X archive holds.

use crate::number::{is_digit, is_number};
use crate::text::{characters, lemma_trim_start, occurs_at, stands_at, trim_start};
use vstd::prelude::*;

verus! {

/// What follows the last `/` of a path; the whole of a path without one.
pub open spec fn last_segment(path: Seq<char>) -> Seq<char>
    decreases path.len(),
{
    if path.len() == 0 || path.last() == '/' {
        Seq::empty()
    } else {
        last_segment(path.drop_last()).push(path.last())
    }
}

proof fn lemma_last_segment(path: Seq<char>, from: int)
    requires
        0 <= from <= path.len(),
        from > 0 ==> path[from - 1] == '/',
        forall|i: int| from <= i < path.len() ==> path[i] != '/',
    ensures
        last_segment(path) == path.skip(from),
    decreases path.len(),
{
    if from < path.len() {
        lemma_last_segment(path.drop_last(), from);
        assert(path.skip(from) =~= path.drop_last().skip(from).push(path.last()));
    } else {
        assert(path.skip(from) =~= Seq::<char>::empty());
    }
}

/// The file name of an archive entry.
pub fn base_name(path: &str) -> (r: &str)
    ensures
        r@ == last_segment(path@),
{
    let mut from: usize = 0;
    let mut at: usize = 0;
    let len = path.unicode_len();
    for c in it: path.chars()
        invariant
            it.seq() == path@,
            len == path@.len(),
            at == it.index(),
            from <= at,
            from > 0 ==> path@[from - 1] == '/',
            forall|i: int| from <= i < at ==> path@[i] != '/',
    {
        at += 1;
        if c == '/' {
            from = at;
        }
    }
    proof {
        lemma_last_segment(path@, from as int);
    }
    path.substring_char(from, len)
}

/// Whether `name` is the part with the number `digits` of the data file `base`.
pub open spec fn is_part(name: Seq<char>, base: Seq<char>, digits: Seq<char>) -> bool {
    is_number(digits) && name == base + "-part"@ + digits + ".js"@
}

/// Whether `name` is the data file `base`, or a numbered part of it.
pub open spec fn data_file(name: Seq<char>, base: Seq<char>) -> bool {
    name == base + ".js"@ || exists|digits: Seq<char>| #[trigger] is_part(name, base, digits)
}

/// Matches the archive's data file names. X splits large files into numbered
/// parts (tweets.js, tweets-part1.js, ...), so both forms are accepted; base
/// names are compared in full so that deleted-tweets.js is never mistaken for
/// tweets.js.
pub fn is_data_file(name: &str, base: &str) -> (r: bool)
    ensures
        r == data_file(name@, base@),
{
    proof {
        reveal_strlit("-part");
        reveal_strlit(".js");
    }
    let cs = characters(name);
    let ghost stem = base@;
    if !stands_at(&cs, 0, base) {
        assert forall|digits: Seq<char>| !is_part(name@, stem, digits) by {
            if is_part(name@, stem, digits) {
                assert(name@.subrange(0, stem.len() as int) =~= stem);
            }
        }
        assert(name@ != stem + ".js"@) by {
            assert((stem + ".js"@).subrange(0, stem.len() as int) =~= stem);
        }
        return false;
    }
    let at = base.unicode_len();
    assert(name@.subrange(0, at as int) == stem);
    if !stands_at(&cs, at, "-part") {
        assert forall|digits: Seq<char>| !is_part(name@, stem, digits) by {
            if is_part(name@, stem, digits) {
                assert(name@.subrange(at as int, at + 5) =~= "-part"@);
            }
        }
        let r = cs.len() - at == 3 && stands_at(&cs, at, ".js");
        assert(r == (name@ == stem + ".js"@)) by {
            if r {
                assert(name@ =~= name@.subrange(0, at as int) + name@.subrange(at as int, at + 3));
            }
            if name@ == stem + ".js"@ {
                assert(name@.subrange(at as int, at + 3) =~= ".js"@);
            }
        }
        return r;
    }
    assert(name@ != stem + ".js"@) by {
        assert(name@.subrange(at as int, at + 5)[0] == '-');
    }
    let len = cs.len();
    let from = at + 5;
    if len - from < 4 {
        return false;
    }
    let to = len - 3;
    let ghost digits = name@.subrange(from as int, to as int);
    assert forall|other: Seq<char>| #[trigger] is_part(name@, stem, other) implies other == digits
        && occurs_at(name@, to as int, ".js"@) by {
        assert(other =~= digits);
        assert(name@.subrange(to as int, to + 3) =~= ".js"@);
    }
    if !stands_at(&cs, to, ".js") {
        return false;
    }
    let mut i: usize = from;
    while i < to
        invariant
            from <= i <= to <= cs@.len(),
            cs@ == name@,
            digits == name@.subrange(from as int, to as int),
            forall|j: int| 0 <= j < i - from ==> is_digit(#[trigger] digits[j]),
            forall|other: Seq<char>| #[trigger]
                is_part(name@, stem, other) ==> other == digits,
            name@ != stem + ".js"@,
            stem == base@,
        decreases to - i,
    {
        let c = cs[i];
        if !(('0' <= c) && (c <= '9')) {
            assert(!is_digit(digits[i - from]));
            return false;
        }
        i += 1;
    }
    assert(is_part(name@, stem, digits)) by {
        assert(name@ =~= name@.subrange(0, at as int) + name@.subrange(at as int, from as int)
            + digits + name@.subrange(to as int, to + 3));
    }
    true
}

/// The kinds of data file that are imported.
#[derive(Clone, Copy, Debug, PartialEq, Eq, Structural)]
pub enum DataKind {
    Tweets,
    DeletedTweets,
    Likes,
    Followers,
    Following,
}

impl DataKind {
    /// The base name of the kind's files.
    pub open spec fn stem(self) -> Seq<char> {
        match self {
            DataKind::Tweets => "tweets"@,
            DataKind::DeletedTweets => "deleted-tweets"@,
            DataKind::Likes => "like"@,
            DataKind::Followers => "follower"@,
            DataKind::Following => "following"@,
        }
    }
}

/// The kind of data that the archive entry `name` holds; `None` for an entry
/// that is not imported.
pub open spec fn kind_of(name: Seq<char>) -> Option<DataKind> {
    let base = last_segment(name);
    if data_file(base, DataKind::Tweets.stem()) {
        Some(DataKind::Tweets)
    } else if data_file(base, DataKind::DeletedTweets.stem()) {
        Some(DataKind::DeletedTweets)
    } else if data_file(base, DataKind::Likes.stem()) {
        Some(DataKind::Likes)
    } else if data_file(base, DataKind::Followers.stem()) {
        Some(DataKind::Followers)
    } else if data_file(base, DataKind::Following.stem()) {
        Some(DataKind::Following)
    } else {
        None
    }
}

/// Tells the kind of data that the archive entry `name` holds.
pub fn data_kind(name: &str) -> (r: Option<DataKind>)
    ensures
        r == kind_of(name@),
{
    let base = base_name(name);
    if is_data_file(base, "tweets") {
        Some(DataKind::Tweets)
    } else if is_data_file(base, "deleted-tweets") {
        Some(DataKind::DeletedTweets)
    } else if is_data_file(base, "like") {
        Some(DataKind::Likes)
    } else if is_data_file(base, "follower") {
        Some(DataKind::Followers)
    } else if is_data_file(base, "following") {
        Some(DataKind::Following)
    } else {
        None
    }
}

/// Whether the archive entry `name` describes the account.
pub open spec fn is_account_entry(name: Seq<char>) -> bool {
    last_segment(name) == "account.js"@
}

/// Tells whether the archive entry `name` describes the account.
pub fn is_account_file(name: &str) -> (r: bool)
    ensures
        r == is_account_entry(name@),
{
    base_name(name).to_string() == "account.js".to_string()
}

/// The file name has no `/`, and only a directory stands before it.
pub proof fn law_base_name_is_the_last_segment(path: Seq<char>)
    ensures
        !last_segment(path).contains('/'),
        last_segment(path) == path || exists|directory: Seq<char>|
            path == #[trigger] (directory + seq!['/']) + last_segment(path),
    decreases path.len(),
{
    if path.len() == 0 {
        assert(last_segment(path) =~= path);
    } else if path.last() == '/' {
        let directory = path.drop_last();
        assert(path =~= (directory + seq!['/']) + last_segment(path));
    } else {
        let front = path.drop_last();
        law_base_name_is_the_last_segment(front);
        let base = last_segment(path);
        if base.contains('/') {
            let i = choose|i: int| 0 <= i < base.len() && base[i] == '/';
            assert(last_segment(front)[i] == '/');
        }
        if last_segment(front) == front {
            assert(base =~= path);
        } else {
            let directory = choose|directory: Seq<char>|
                front == #[trigger] (directory + seq!['/']) + last_segment(front);
            let head = directory + seq!['/'];
            assert(path =~= (head + last_segment(front)).push(path.last()));
            assert(path =~= head + base);
        }
    }
}

proof fn lemma_data_file_begins(name: Seq<char>, base: Seq<char>)
    requires
        data_file(name, base),
    ensures
        name.len() > base.len(),
        forall|i: int| 0 <= i < base.len() ==> name[i] == #[trigger] base[i],
{
    reveal_strlit("-part");
    reveal_strlit(".js");
    if name != base + ".js"@ {
        let digits = choose|digits: Seq<char>| #[trigger] is_part(name, base, digits);
        assert(name == base + "-part"@ + digits + ".js"@);
    }
}

/// A file belongs to one kind at most: deleted-tweets.js is never mistaken for
/// tweets.js, nor any kind's file for another's.
pub proof fn law_kinds_are_told_apart(name: Seq<char>, a: DataKind, b: DataKind)
    requires
        data_file(name, a.stem()),
        data_file(name, b.stem()),
    ensures
        a == b,
{
    reveal_strlit("tweets");
    reveal_strlit("deleted-tweets");
    reveal_strlit("like");
    reveal_strlit("follower");
    reveal_strlit("following");
    lemma_data_file_begins(name, a.stem());
    lemma_data_file_begins(name, b.stem());
    assert(name[0] == a.stem()[0]);
    assert(name[0] == b.stem()[0]);
    if a != b {
        assert(name[7] == a.stem()[7]);
        assert(name[7] == b.stem()[7]);
    }
}

/// An entry's kind is the one whose files its name matches.
pub proof fn law_kind_is_decided_by_the_name(name: Seq<char>, kind: DataKind)
    ensures
        kind_of(name) == Some(kind) <==> data_file(last_segment(name), kind.stem()),
{
    let base = last_segment(name);
    if data_file(base, kind.stem()) {
        if let Some(found) = kind_of(name) {
            law_kinds_are_told_apart(base, kind, found);
        }
    }
}

/// Whether `c` may stand before the JSON array of a data file.
pub open spec fn before_array() -> spec_fn(char) -> bool {
    |c: char| c != '['
}

/// The JSON array of a data file: everything from the first `[` on. `None` for
/// a file without one.
pub open spec fn array_text(content: Seq<char>) -> Option<Seq<char>> {
    if content.contains('[') {
        Some(trim_start(content, before_array()))
    } else {
        None
    }
}

/// Why an archive could not be imported.
#[derive(Debug)]
pub enum ImportError {
    /// The archive does not say which account it belongs to.
    NoAccount,
    /// A data file holds no JSON array.
    NoArray { name: String },
    /// The JSON of a data file is not what it should be.
    BadJson { name: String },
}

impl ImportError {
    /// The error in words.
    pub open spec fn text(self) -> Seq<char> {
        match self {
            ImportError::NoAccount => "no account.js found; not an X archive?"@,
            ImportError::NoArray { name } => "invalid "@ + name@
                + " format: no JSON array found"@,
            ImportError::BadJson { name } => "failed to parse "@ + name@,
        }
    }

    /// Puts the error in words.
    pub fn message(&self) -> (r: String)
        ensures
            r@ == self.text(),
    {
        match self {
            ImportError::NoAccount => "no account.js found; not an X archive?".to_string(),
            ImportError::NoArray { name } => {
                let mut r = "invalid ".to_string();
                r.append(name.as_str());
                r.append(" format: no JSON array found");
                r
            },
            ImportError::BadJson { name } => {
                let mut r = "failed to parse ".to_string();
                r.append(name.as_str());
                r
            },
        }
    }
}

/// Finds the JSON in one of the archive's .js data files. They are not JSON:
/// each starts with a `window.YTD.<name>.partN = ` assignment followed by a
/// JSON array, so the prefix is stripped.
pub fn data_json<'a>(content: &'a str, name: &str) -> (r: Result<&'a str, ImportError>)
    ensures
        match (array_text(content@), r) {
            (Some(text), Ok(found)) => found@ == text,
            (None, Err(ImportError::NoArray { name: file })) => file@ == name@,
            _ => false,
        },
{
    let mut at: usize = 0;
    let len = content.unicode_len();
    for c in it: content.chars()
        invariant
            it.seq() == content@,
            len == content@.len(),
            at == it.index(),
            forall|i: int| 0 <= i < at ==> content@[i] != '[',
    {
        if c == '[' {
            assert(content@[at as int] == '[');
            proof {
                lemma_trim_start(content@, before_array(), at as int);
            }
            return Ok(content.substring_char(at, len));
        }
        at += 1;
    }
    Err(ImportError::NoArray { name: name.to_string() })
}

/// What is handed to the JSON reader begins with the array, and nothing but
/// text without a `[` was cut off before it.
pub proof fn law_only_the_prefix_is_stripped(content: Seq<char>, prefix: Seq<char>, rest: Seq<char>)
    requires
        content == prefix + seq!['['] + rest,
        !prefix.contains('['),
    ensures
        array_text(content) == Some(seq!['['] + rest),
{
    let at = prefix.len() as int;
    assert(content[at] == '[');
    assert forall|i: int| 0 <= i < at implies content[i] != '[' by {
        assert(content[i] == prefix[i]);
        assert(prefix.contains(prefix[i]));
    }
    lemma_trim_start(content, before_array(), at);
    assert(content.skip(at) =~= seq!['['] + rest);
}

/// A data file is named by its base, whole or in numbered parts, and by
/// nothing else: however many digits the part's number has, it is one, and
/// without digits it is none.
pub proof fn law_data_files_come_in_parts(name: Seq<char>, base: Seq<char>, digits: Seq<char>)
    ensures
        data_file(base + ".js"@, base),
        digits.len() > 0 && (forall|i: int|
            0 <= i < digits.len() ==> 48 <= #[trigger] digits[i] as int <= 57) ==> data_file(
            base + "-part"@ + digits + ".js"@,
            base,
        ),
        data_file(name, base) ==> name == base + ".js"@ || exists|number: Seq<char>|
            number.len() > 0 && (forall|i: int|
                0 <= i < number.len() ==> 48 <= #[trigger] number[i] as int <= 57) && name
                == #[trigger] (base + "-part"@ + number + ".js"@),
{
    if digits.len() > 0 && (forall|i: int|
        0 <= i < digits.len() ==> 48 <= #[trigger] digits[i] as int <= 57) {
        assert(is_part(base + "-part"@ + digits + ".js"@, base, digits));
    }
    if data_file(name, base) && name != base + ".js"@ {
        let number = choose|number: Seq<char>| #[trigger] is_part(name, base, number);
        assert forall|i: int| 0 <= i < number.len() implies 48 <= #[trigger] number[i] as int <= 57 by {
            assert(is_digit(number[i]));
        }
        assert(name == base + "-part"@ + number + ".js"@);
    }
}

/// Each kind's files have a base name of their own.
pub proof fn law_kinds_by_base_name(name: Seq<char>)
    ensures
        kind_of(name) == Some(DataKind::Tweets) <==> data_file(last_segment(name), "tweets"@),
        kind_of(name) == Some(DataKind::DeletedTweets) <==> data_file(
            last_segment(name),
            "deleted-tweets"@,
        ),
        kind_of(name) == Some(DataKind::Likes) <==> data_file(last_segment(name), "like"@),
        kind_of(name) == Some(DataKind::Followers) <==> data_file(last_segment(name), "follower"@),
        kind_of(name) == Some(DataKind::Following) <==> data_file(last_segment(name), "following"@),
{
    law_kind_is_decided_by_the_name(name, DataKind::Tweets);
    law_kind_is_decided_by_the_name(name, DataKind::DeletedTweets);
    law_kind_is_decided_by_the_name(name, DataKind::Likes);
    law_kind_is_decided_by_the_name(name, DataKind::Followers);
    law_kind_is_decided_by_the_name(name, DataKind::Following);
}

/// The account is described by account.js, in whatever directory, and by no
/// other entry.
pub proof fn law_account_entry_in_any_directory(name: Seq<char>, directory: Seq<char>)
    ensures
        is_account_entry("account.js"@),
        is_account_entry(directory + "/account.js"@),
        is_account_entry(name) ==> name == "account.js"@ || exists|parent: Seq<char>|
            name == #[trigger] (parent + "/account.js"@),
{
    reveal_strlit("account.js");
    reveal_strlit("/account.js");
    let file = "account.js"@;
    let path = directory + "/account.js"@;
    assert(file.skip(0) =~= file);
    lemma_last_segment(file, 0);
    let from = directory.len() as int + 1;
    assert(path.skip(from) =~= file);
    assert(path[from - 1] == '/');
    assert forall|i: int| from <= i < path.len() implies path[i] != '/' by {
        assert(path[i] == file[i - from]);
    }
    lemma_last_segment(path, from);
    if is_account_entry(name) && name != file {
        law_base_name_is_the_last_segment(name);
        let parent = choose|parent: Seq<char>|
            name == #[trigger] (parent + seq!['/']) + last_segment(name);
        assert(seq!['/'] + file =~= "/account.js"@);
        assert(name =~= parent + "/account.js"@);
    }
}

/// A file without a bracket holds no array.
pub proof fn law_no_array_without_a_bracket(content: Seq<char>)
    ensures
        array_text(content) is None <==> forall|i: int|
            0 <= i < content.len() ==> #[trigger] content[i] != '[',
{
    if array_text(content) is None {
        assert forall|i: int| 0 <= i < content.len() implies #[trigger] content[i] != '[' by {
            if content[i] == '[' {
                assert(content.contains('['));
            }
        }
    }
}

/// An error says what is wrong, and names the file it is about, whole.
pub proof fn law_errors_name_their_file(name: String)
    ensures
        ImportError::NoAccount.text() == "no account.js found; not an X archive?"@,
        (ImportError::NoArray { name }).text() == "invalid "@ + name@
            + " format: no JSON array found"@,
        (ImportError::BadJson { name }).text() == "failed to parse "@ + name@,
{
}

} // verus!
