use vstd::prelude::*;

verus! {

/// What kind of media a matched file holds.
#[derive(Clone, Copy, Debug, PartialEq, Eq, Structural)]
pub enum FileType {
    Audio,
    Midi,
}

impl FileType {
    /// The tag under which the kind is reported to callers.
    pub open spec fn tag(self) -> Seq<char> {
        match self {
            FileType::Audio => seq!['a', 'u', 'd', 'i', 'o'],
            FileType::Midi => seq!['m', 'i', 'd', 'i'],
        }
    }

    /// The reported tag: `audio` or `midi`.
    pub fn as_string(&self) -> (r: String)
        ensures
            r@ == self.tag(),
    {
        let r = match self {
            FileType::Audio => String::from_str("audio"),
            FileType::Midi => String::from_str("midi"),
        };
        proof {
            reveal_strlit("audio");
            reveal_strlit("midi");
        }
        r
    }
}

/// The lowercase form of a text, as `str::to_lowercase` gives it.
pub uninterp spec fn lower_of(s: Seq<char>) -> Seq<char>;

/// Relies on `str::to_lowercase`: the result depends on the characters alone.
#[verifier::external_body]
fn to_lower(s: &str) -> (r: String)
    ensures
        r@ == lower_of(s@),
{
    s.to_lowercase()
}

/// Extensions, in lowercase, of the files that hold audio.
pub open spec fn is_audio_extension(e: Seq<char>) -> bool {
    ||| e == seq!['w', 'a', 'v']
    ||| e == seq!['m', 'p', '3']
    ||| e == seq!['a', 'i', 'f', 'f']
    ||| e == seq!['f', 'l', 'a', 'c']
    ||| e == seq!['m', '4', 'a']
    ||| e == seq!['a', 'a', 'c']
    ||| e == seq!['o', 'g', 'g']
    ||| e == seq!['w', 'm', 'a']
}

/// Extensions, in lowercase, of the files that hold MIDI.
pub open spec fn is_midi_extension(e: Seq<char>) -> bool {
    ||| e == seq!['m', 'i', 'd']
    ||| e == seq!['m', 'i', 'd', 'i']
}

/// The kind of a lowercase extension; audio wins where both sets would hold it.
pub open spec fn class_of_extension(e: Seq<char>) -> Option<FileType> {
    if is_audio_extension(e) {
        Some(FileType::Audio)
    } else if is_midi_extension(e) {
        Some(FileType::Midi)
    } else {
        None
    }
}

/// `i` is the position of the last dot in `name`.
pub open spec fn is_last_dot(name: Seq<char>, i: int) -> bool {
    &&& 0 <= i < name.len()
    &&& name[i] == '.'
    &&& forall|j: int| i < j < name.len() ==> name[j] != '.'
}

/// No extension lies in both the audio set and the MIDI set.
pub proof fn lemma_extension_sets_disjoint(e: Seq<char>)
    ensures
        !(is_audio_extension(e) && is_midi_extension(e)),
{
    if is_midi_extension(e) {
        if e.len() == 3 {
            assert(e[0] == 'm' && e[1] == 'i' && e[2] == 'd');
        } else {
            assert(e.len() == 4 && e[3] == 'i');
        }
    }
}

/// Position of the last dot in `name`, or -1 where it has none.
pub open spec fn last_dot(name: Seq<char>) -> int
    decreases name.len(),
{
    if name.len() == 0 {
        -1
    } else if name.last() == '.' {
        name.len() - 1
    } else {
        last_dot(name.drop_last())
    }
}

/// The extension of a file name: what follows its last dot, where that dot is
/// not the first character; the name `..` has none.
pub open spec fn extension_of(name: Seq<char>) -> Option<Seq<char>> {
    if name == seq!['.', '.'] || last_dot(name) <= 0 {
        None
    } else {
        Some(name.subrange(last_dot(name) + 1, name.len() as int))
    }
}

/// The kind of a file by its name, matching the extension without regard to case.
pub open spec fn class_of_name(name: Seq<char>) -> Option<FileType> {
    match extension_of(name) {
        Some(e) => class_of_extension(lower_of(e)),
        None => None,
    }
}

proof fn lemma_last_dot_found(name: Seq<char>, i: int)
    requires
        is_last_dot(name, i),
    ensures
        last_dot(name) == i,
    decreases name.len(),
{
    if name.last() != '.' {
        let p = name.drop_last();
        assert(is_last_dot(p, i));
        lemma_last_dot_found(p, i);
    } else if i < name.len() - 1 {
        assert(name[name.len() - 1] == '.');
    }
}

proof fn lemma_last_dot_none(name: Seq<char>)
    requires
        forall|j: int| 0 <= j < name.len() ==> name[j] != '.',
    ensures
        last_dot(name) == -1,
    decreases name.len(),
{
    if name.len() > 0 {
        assert(name[name.len() - 1] != '.');
        let p = name.drop_last();
        assert forall|j: int| 0 <= j < p.len() implies p[j] != '.' by {
            assert(p[j] == name[j]);
        }
        lemma_last_dot_none(p);
    }
}

/// Whether two texts hold the same characters.
fn same_text(a: &str, b: &str) -> (r: bool)
    ensures
        r == (a@ == b@),
{
    let n = a.unicode_len();
    if n != b.unicode_len() {
        return false;
    }
    let mut i: usize = 0;
    while i < n
        invariant
            n == a@.len(),
            n == b@.len(),
            i <= n,
            forall|j: int| 0 <= j < i ==> a@[j] == b@[j],
        decreases n - i,
    {
        if a.get_char(i) != b.get_char(i) {
            return false;
        }
        i = i + 1;
    }
    assert(a@ =~= b@);
    true
}

/// Kind of a lowercase extension.
pub fn classify_lowered(e: &str) -> (r: Option<FileType>)
    ensures
        r == class_of_extension(e@),
{
    proof {
        reveal_strlit("wav");
        assert("wav"@ =~= seq!['w', 'a', 'v']);
        reveal_strlit("mp3");
        assert("mp3"@ =~= seq!['m', 'p', '3']);
        reveal_strlit("aiff");
        assert("aiff"@ =~= seq!['a', 'i', 'f', 'f']);
        reveal_strlit("flac");
        assert("flac"@ =~= seq!['f', 'l', 'a', 'c']);
        reveal_strlit("m4a");
        assert("m4a"@ =~= seq!['m', '4', 'a']);
        reveal_strlit("aac");
        assert("aac"@ =~= seq!['a', 'a', 'c']);
        reveal_strlit("ogg");
        assert("ogg"@ =~= seq!['o', 'g', 'g']);
        reveal_strlit("wma");
        assert("wma"@ =~= seq!['w', 'm', 'a']);
        reveal_strlit("mid");
        assert("mid"@ =~= seq!['m', 'i', 'd']);
        reveal_strlit("midi");
        assert("midi"@ =~= seq!['m', 'i', 'd', 'i']);
    }
    let audio = same_text(e, "wav") || same_text(e, "mp3") || same_text(e, "aiff")
        || same_text(e, "flac") || same_text(e, "m4a") || same_text(e, "aac")
        || same_text(e, "ogg") || same_text(e, "wma");
    if audio {
        return Some(FileType::Audio);
    }
    if same_text(e, "mid") || same_text(e, "midi") {
        Some(FileType::Midi)
    } else {
        None
    }
}

/// The extension of a file name, as `extension_of` states it.
pub fn file_extension(name: &str) -> (r: Option<&str>)
    ensures
        r matches Some(e) ==> extension_of(name@) == Some(e@),
        r is None ==> extension_of(name@) is None,
{
    let n = name.unicode_len();
    if n == 2 && name.get_char(0) == '.' && name.get_char(1) == '.' {
        assert(name@ =~= seq!['.', '.']);
        return None;
    }
    assert(name@ != seq!['.', '.']) by {
        if name@ == seq!['.', '.'] {
            assert(name@[0] == '.' && name@[1] == '.');
        }
    }
    let mut i: usize = n;
    while i > 0
        invariant
            n == name@.len(),
            name@ != seq!['.', '.'],
            i <= n,
            forall|j: int| i <= j < n ==> name@[j] != '.',
        decreases i,
    {
        if name.get_char(i - 1) == '.' {
            let d = i - 1;
            proof {
                assert(is_last_dot(name@, d as int));
                lemma_last_dot_found(name@, d as int);
            }
            if d == 0 {
                return None;
            }
            let e = name.substring_char(i, n);
            return Some(e);
        }
        i = i - 1;
    }
    proof {
        lemma_last_dot_none(name@);
    }
    None
}

/// Kind of a file by its name: the extension is lowercased and then matched.
pub fn classify_name(name: &str) -> (r: Option<FileType>)
    ensures
        r == class_of_name(name@),
{
    match file_extension(name) {
        Some(e) => {
            let lowered = to_lower(e);
            classify_lowered(lowered.as_str())
        },
        None => None,
    }
}

} // verus!
