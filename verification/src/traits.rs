//! Extension traits on iterators, strings, options and results.

use std::collections::HashMap;
use std::fmt::{Debug, Display};
use std::hash::Hash;
use vstd::prelude::*;
use vstd::std_specs::hash::obeys_key_model;
use vstd::std_specs::iter::IteratorSpec;
use vstd::string::to_string_from_display_ensures;
use vstd::string::StrSliceExecFns;
use vstd::string::StringExecFns;
use crate::quit::{quit, quit_line, Exit, ExitView};
use crate::rules::views;
use crate::text::{
    char_is_space, find_first, find_last, first_at, is_space, last_at, lemma_first_at,
    lemma_last_at, to_chars, trim, trimmed,
};

verus! {

/// Whether the iterator keeps to the laws of iterators and comes to an end.
pub open spec fn finite<I: Iterator>(it: &I) -> bool {
    it.obeys_prophetic_iter_laws() && it.decrease() is Some
}

/// Collecting an iterator's values into a `Vec`.
pub trait ToVec<T>: Iterator<Item = T> + Sized {
    /// The values of the iterator, in the order in which it yields them.
    fn to_vec(self) -> (v: Vec<T>)
        requires
            finite(&self),
        ensures
            v@ == self.remaining(),
    ;
}

impl<T, I: Iterator<Item = T>> ToVec<T> for I {
    fn to_vec(self) -> (v: Vec<T>) {
        let mut v: Vec<T> = Vec::new();
        let mut it = self;
        loop
            invariant
                finite(&it),
                v@ + it.remaining() == self.remaining(),
            ensures
                v@ == self.remaining(),
            decreases it.decrease()->0,
        {
            match it.next() {
                Some(x) => {
                    v.push(x);
                },
                None => {
                    break;
                },
            }
        }
        v
    }
}

/// The map that holds, for each key of `pairs`, the value of the last pair
/// with that key.
pub open spec fn map_of<K, V>(pairs: Seq<(K, V)>) -> Map<K, V>
    decreases pairs.len(),
{
    if pairs.len() == 0 {
        Map::empty()
    } else {
        map_of(pairs.drop_last()).insert(pairs.last().0, pairs.last().1)
    }
}

/// Collecting an iterator's pairs into a `HashMap`.
pub trait ToMap<K, V>: Iterator<Item = (K, V)> + Sized {
    /// The map of the iterator's pairs; of two pairs with one key the later
    /// one stays.
    fn to_map(self) -> (m: HashMap<K, V>)
        requires
            finite(&self),
        ensures
            obeys_key_model::<K>() ==> m@ == map_of(self.remaining()),
    ;
}

impl<K: Eq + Hash, V, I: Iterator<Item = (K, V)>> ToMap<K, V> for I {
    fn to_map(self) -> (m: HashMap<K, V>) {
        let mut m: HashMap<K, V> = HashMap::new();
        let mut it = self;
        let ghost mut done: Seq<(K, V)> = Seq::empty();
        loop
            invariant
                finite(&it),
                done + it.remaining() == self.remaining(),
                obeys_key_model::<K>() ==> m@ == map_of(done),
            ensures
                obeys_key_model::<K>() ==> m@ == map_of(self.remaining()),
            decreases it.decrease()->0,
        {
            match it.next() {
                Some((k, v)) => {
                    proof {
                        assert(done.push((k, v)).drop_last() == done);
                        done = done.push((k, v));
                    }
                    m.insert(k, v);
                },
                None => {
                    assert(done + Seq::<(K, V)>::empty() == done);
                    break;
                },
            }
        }
        m
    }
}

/// What reads as text.
pub trait Text {
    /// The text.
    spec fn text(&self) -> Seq<char>;

    /// The text as a string slice.
    fn as_text(&self) -> (s: &str)
        ensures
            s@ == self.text(),
    ;
}

impl Text for str {
    open spec fn text(&self) -> Seq<char> {
        self@
    }

    fn as_text(&self) -> (s: &str) {
        self
    }
}

impl Text for String {
    open spec fn text(&self) -> Seq<char> {
        self@
    }

    fn as_text(&self) -> (s: &str) {
        self.as_str()
    }
}

impl<'a, T: Text + ?Sized> Text for &'a T {
    open spec fn text(&self) -> Seq<char> {
        (**self).text()
    }

    fn as_text(&self) -> (s: &str) {
        (**self).as_text()
    }
}

/// The texts of `items`.
pub open spec fn texts<T: Text>(items: Seq<T>) -> Seq<Seq<char>> {
    Seq::new(items.len(), |i: int| items[i].text())
}

/// The parts one after another, with `delim` between each two.
pub open spec fn joined(parts: Seq<Seq<char>>, delim: char) -> Seq<char>
    decreases parts.len(),
{
    if parts.len() == 0 {
        Seq::empty()
    } else if parts.len() == 1 {
        parts[0]
    } else {
        joined(parts.drop_last(), delim).push(delim) + parts.last()
    }
}

/// The parts one after another, with `prefix` in front of each.
pub open spec fn prepended(parts: Seq<Seq<char>>, prefix: Seq<char>) -> Seq<char>
    decreases parts.len(),
{
    if parts.len() == 0 {
        Seq::empty()
    } else {
        prepended(parts.drop_last(), prefix) + prefix + parts.last()
    }
}

/// The parts one after another.
pub open spec fn concat(parts: Seq<Seq<char>>) -> Seq<char>
    decreases parts.len(),
{
    if parts.len() == 0 {
        Seq::empty()
    } else {
        concat(parts.drop_last()) + parts.last()
    }
}

/// Making one string of an iterator's strings.
pub trait Join: Iterator + Sized where Self::Item: Text {
    /// The strings with `delim` between each two.
    fn join(self, delim: char) -> (r: String)
        requires
            finite(&self),
        ensures
            r@ == joined(texts(self.remaining()), delim),
    ;

    /// The strings, each with `prefix` in front.
    fn prepend(self, prefix: &str) -> (r: String)
        requires
            finite(&self),
        ensures
            r@ == prepended(texts(self.remaining()), prefix@),
    ;

    /// What `map` makes of the strings, one result after another.
    fn append<F: Fn(&str) -> String>(self, map: F) -> (r: String)
        requires
            finite(&self),
            forall|s: &str| call_requires(map, (s,)),
        ensures
            exists|args: Seq<&str>, pieces: Seq<String>|
                mapped(map, texts(self.remaining()), args, pieces) && r@ == concat(views(pieces)),
    ;
}

/// Whether `pieces` are results of `map` on `args`, and `args` read as
/// `parts` do.
pub open spec fn mapped<F: Fn(&str) -> String>(
    map: F,
    parts: Seq<Seq<char>>,
    args: Seq<&str>,
    pieces: Seq<String>,
) -> bool {
    &&& args.len() == parts.len()
    &&& pieces.len() == parts.len()
    &&& forall|i: int| 0 <= i < parts.len() ==> (#[trigger] args[i])@ == parts[i]
    &&& forall|i: int|
        0 <= i < parts.len() ==> #[trigger] call_ensures(map, (args[i],), pieces[i])
}

impl<T: Text, I: Iterator<Item = T>> Join for I {
    fn join(self, delim: char) -> (r: String) {
        let mut r = String::new();
        let mut it = self;
        let ghost mut done: Seq<T> = Seq::empty();
        let mut first = true;
        loop
            invariant
                finite(&it),
                done + it.remaining() == self.remaining(),
                first == (done.len() == 0),
                r@ == joined(texts(done), delim),
            ensures
                r@ == joined(texts(self.remaining()), delim),
            decreases it.decrease()->0,
        {
            match it.next() {
                Some(x) => {
                    proof {
                        assert(texts(done.push(x)).drop_last() == texts(done));
                        assert(texts(done.push(x)).last() == x.text());
                    }
                    if !first {
                        r.push(delim);
                    }
                    r.append(x.as_text());
                    first = false;
                    proof {
                        done = done.push(x);
                    }
                },
                None => {
                    assert(done + Seq::<T>::empty() == done);
                    break;
                },
            }
        }
        r
    }

    fn append<F: Fn(&str) -> String>(self, map: F) -> (r: String) {
        let mut r = String::new();
        let mut it = self;
        let ghost mut done: Seq<T> = Seq::empty();
        let ghost mut args: Seq<&str> = Seq::empty();
        let ghost mut pieces: Seq<String> = Seq::empty();
        loop
            invariant
                finite(&it),
                forall|s: &str| call_requires(map, (s,)),
                done + it.remaining() == self.remaining(),
                mapped(map, texts(done), args, pieces),
                r@ == concat(views(pieces)),
            ensures
                mapped(map, texts(self.remaining()), args, pieces),
                r@ == concat(views(pieces)),
            decreases it.decrease()->0,
        {
            match it.next() {
                Some(x) => {
                    let arg = x.as_text();
                    let piece = map(arg);
                    r.append(piece.as_str());
                    proof {
                        assert(views(pieces.push(piece)).drop_last() == views(pieces));
                        assert(texts(done.push(x)) == texts(done).push(x.text()));
                        let n = done.len() as int;
                        let args2 = args.push(arg);
                        let pieces2 = pieces.push(piece);
                        assert forall|i: int| 0 <= i <= n implies (#[trigger] args2[i])@ == texts(
                            done.push(x),
                        )[i] by {
                            if i < n {
                                assert(args2[i] == args[i]);
                                assert(texts(done.push(x))[i] == texts(done)[i]);
                            }
                        }
                        assert forall|i: int| 0 <= i <= n implies #[trigger] call_ensures(
                            map,
                            (args2[i],),
                            pieces2[i],
                        ) by {
                            if i < n {
                                assert(args2[i] == args[i]);
                                assert(pieces2[i] == pieces[i]);
                                assert(call_ensures(map, (args[i],), pieces[i]));
                            }
                        }
                        done = done.push(x);
                        args = args2;
                        pieces = pieces2;
                    }
                },
                None => {
                    assert(done + Seq::<T>::empty() == done);
                    break;
                },
            }
        }
        r
    }

    fn prepend(self, prefix: &str) -> (r: String) {
        let mut r = String::new();
        let mut it = self;
        let ghost mut done: Seq<T> = Seq::empty();
        loop
            invariant
                finite(&it),
                done + it.remaining() == self.remaining(),
                r@ == prepended(texts(done), prefix@),
            ensures
                r@ == prepended(texts(self.remaining()), prefix@),
            decreases it.decrease()->0,
        {
            match it.next() {
                Some(x) => {
                    proof {
                        assert(texts(done.push(x)).drop_last() == texts(done));
                        assert(texts(done.push(x)).last() == x.text());
                        done = done.push(x);
                    }
                    r.append(prefix);
                    r.append(x.as_text());
                },
                None => {
                    assert(done + Seq::<T>::empty() == done);
                    break;
                },
            }
        }
        r
    }
}

/// The parts one after another, each with `delim` behind it.
pub open spec fn followed(parts: Seq<Seq<char>>, delim: Seq<char>) -> Seq<char>
    decreases parts.len(),
{
    if parts.len() == 0 {
        Seq::empty()
    } else {
        followed(parts.drop_last(), delim) + parts.last() + delim
    }
}

/// Whether each of `pieces` is how the value at its place in `items`
/// displays.
pub open spec fn shown<T: Display>(items: Seq<T>, pieces: Seq<String>) -> bool {
    &&& pieces.len() == items.len()
    &&& forall|i: int|
        0 <= i < items.len() ==> to_string_from_display_ensures::<T>(
            &items[i],
            #[trigger] pieces[i],
        )
}

/// Writing out an iterator's values as they display.
pub trait Print: Iterator + Sized where Self::Item: Display {
    /// What printing the values writes: each value as it displays, with
    /// `delim` behind it.
    fn print(self, delim: &str) -> (r: String)
        requires
            finite(&self),
        ensures
            exists|pieces: Seq<String>|
                shown(self.remaining(), pieces) && r@ == followed(views(pieces), delim@),
    ;
}

impl<T: Display, I: Iterator<Item = T>> Print for I {
    fn print(self, delim: &str) -> (r: String) {
        let mut r = String::new();
        let mut it = self;
        let ghost mut done: Seq<T> = Seq::empty();
        let ghost mut pieces: Seq<String> = Seq::empty();
        loop
            invariant
                finite(&it),
                done + it.remaining() == self.remaining(),
                shown(done, pieces),
                r@ == followed(views(pieces), delim@),
            ensures
                shown(self.remaining(), pieces),
                r@ == followed(views(pieces), delim@),
            decreases it.decrease()->0,
        {
            match it.next() {
                Some(x) => {
                    let piece = x.to_string();
                    r.append(piece.as_str());
                    r.append(delim);
                    proof {
                        let pieces2 = pieces.push(piece);
                        let n = done.len() as int;
                        assert(views(pieces2).drop_last() == views(pieces));
                        assert forall|i: int| 0 <= i <= n implies to_string_from_display_ensures::<
                            T,
                        >(&done.push(x)[i], #[trigger] pieces2[i]) by {
                            if i < n {
                                assert(pieces2[i] == pieces[i]);
                                assert(done.push(x)[i] == done[i]);
                            }
                        }
                        done = done.push(x);
                        pieces = pieces2;
                    }
                },
                None => {
                    assert(done + Seq::<T>::empty() == done);
                    break;
                },
            }
        }
        r
    }
}

/// `format!` with `{:?}`: how `v` shows for debugging. What that reads lies
/// with the type's own `Debug`; nothing is said of it here.
#[verifier::external_body]
fn debug_text<T: Debug>(v: &T) -> String {
    format!("{:?}", v)
}

/// Writing out an iterator's values as they show for debugging.
pub trait PrintDbg: Iterator + Sized where Self::Item: Debug {
    /// What printing the values writes: for each value a piece of text, with
    /// `delim` behind it.
    fn debug(self, delim: &str) -> (r: String)
        requires
            finite(&self),
        ensures
            exists|pieces: Seq<Seq<char>>|
                pieces.len() == self.remaining().len() && r@ == followed(pieces, delim@),
    ;
}

impl<T: Debug, I: Iterator<Item = T>> PrintDbg for I {
    fn debug(self, delim: &str) -> (r: String) {
        let mut r = String::new();
        let mut it = self;
        let ghost mut done: Seq<T> = Seq::empty();
        let ghost mut pieces: Seq<Seq<char>> = Seq::empty();
        loop
            invariant
                finite(&it),
                done + it.remaining() == self.remaining(),
                pieces.len() == done.len(),
                r@ == followed(pieces, delim@),
            ensures
                pieces.len() == self.remaining().len(),
                r@ == followed(pieces, delim@),
            decreases it.decrease()->0,
        {
            match it.next() {
                Some(x) => {
                    let piece = debug_text(&x);
                    r.append(piece.as_str());
                    r.append(delim);
                    proof {
                        assert(pieces.push(piece@).drop_last() == pieces);
                        done = done.push(x);
                        pieces = pieces.push(piece@);
                    }
                },
                None => {
                    assert(done + Seq::<T>::empty() == done);
                    break;
                },
            }
        }
        r
    }
}

/// White space that takes one byte.
pub open spec fn is_byte_space(c: char) -> bool {
    is_space(c) && (c as u32) < 0x80
}

/// The parts of `s` before and behind index `i`.
pub open spec fn split_around(s: Seq<char>, i: int) -> (Seq<char>, Seq<char>) {
    (s.take(i), s.skip(i + 1))
}

/// More operations on strings.
pub trait StringEx: Text {
    /// The part before the first `delim` and the part behind it, where the
    /// string holds `delim`.
    fn split_at_delim(&self, delim: char) -> (r: Option<(&str, &str)>)
        ensures
            r is Some <==> self.text().contains(delim),
            r matches Some((a, b)) ==> (a@, b@) == split_around(
                self.text(),
                first_at(self.text(), delim),
            ),
    ;

    /// The part before the last `delim` and the part behind it, where the
    /// string holds `delim`.
    fn split_at_delim_right(&self, delim: char) -> (r: Option<(&str, &str)>)
        ensures
            r is Some <==> self.text().contains(delim),
            r matches Some((a, b)) ==> (a@, b@) == split_around(
                self.text(),
                last_at(self.text(), delim),
            ),
    ;

    /// Whether the string holds nothing but white space of one byte each.
    fn is_whitespace(&self) -> (b: bool)
        ensures
            b == forall|i: int| 0 <= i < self.text().len() ==> is_byte_space(self.text()[i]),
    ;
}

impl StringEx for str {
    fn split_at_delim(&self, delim: char) -> (r: Option<(&str, &str)>) {
        let v = to_chars(self);
        let i = find_first(v.as_slice(), delim);
        proof {
            lemma_first_at(self@, delim);
        }
        if i < v.len() {
            Some((self.substring_char(0, i), self.substring_char(i + 1, v.len())))
        } else {
            None
        }
    }

    fn split_at_delim_right(&self, delim: char) -> (r: Option<(&str, &str)>) {
        let v = to_chars(self);
        let i = find_last(v.as_slice(), delim);
        proof {
            lemma_last_at(self@, delim);
        }
        if i > 0 {
            Some((self.substring_char(0, i - 1), self.substring_char(i, v.len())))
        } else {
            None
        }
    }

    fn is_whitespace(&self) -> (b: bool) {
        let v = to_chars(self);
        let mut i: usize = 0;
        while i < v.len()
            invariant
                i <= v@.len(),
                v@ == self@,
                forall|j: int| 0 <= j < i ==> is_byte_space(v@[j]),
            decreases v.len() - i,
        {
            let c: char = v[i];
            if !(char_is_space(c) && (c as u32) < 0x80) {
                assert(!is_byte_space(self.text()[i as int]));
                return false;
            }
            i += 1;
        }
        true
    }
}

/// Trimming a pair of strings that may not be there.
pub trait MaybeTrim: Sized {
    /// The two strings as they read, if they are there.
    spec fn pair(self) -> Option<(Seq<char>, Seq<char>)>;

    /// The two strings without their leading and trailing white space.
    fn trim(self) -> (r: Option<(String, String)>)
        ensures
            match (r, self.pair()) {
                (Some((a, b)), Some((x, y))) => a@ == trim(x) && b@ == trim(y),
                (None, None) => true,
                _ => false,
            },
    ;
}

impl<'a> MaybeTrim for Option<(&'a str, &'a str)> {
    open spec fn pair(self) -> Option<(Seq<char>, Seq<char>)> {
        match self {
            Some((a, b)) => Some((a@, b@)),
            None => None,
        }
    }

    fn trim(self) -> (r: Option<(String, String)>) {
        match self {
            Some((a, b)) => Some((trimmed(a), trimmed(b))),
            None => None,
        }
    }
}

/// Giving up where a value is missing.
pub trait Die<T>: Sized {
    /// The value, if there is one.
    spec fn value(self) -> Option<T>;

    /// Whether `text` is what is said for `msg` where the value is missing.
    spec fn says(self, msg: Seq<char>, text: Seq<char>) -> bool;

    /// The value, or how the program named `program` gives up for `msg`.
    fn or_die(self, program: &str, msg: &str) -> (r: Result<T, Exit>)
        ensures
            match r {
                Ok(t) => self.value() == Some(t),
                Err(x) => self.value() is None && exists|text: Seq<char>|
                    self.says(msg@, text) && x@ == (ExitView {
                        message: quit_line(program@, text),
                        code: 1,
                    }),
            },
    ;
}

impl<T> Die<T> for Option<T> {
    open spec fn value(self) -> Option<T> {
        self
    }

    open spec fn says(self, msg: Seq<char>, text: Seq<char>) -> bool {
        text == msg
    }

    fn or_die(self, program: &str, msg: &str) -> (r: Result<T, Exit>) {
        match self {
            Some(t) => Ok(t),
            None => {
                assert(self.says(msg@, msg@));
                Err(quit(program, msg))
            },
        }
    }
}

impl<T, E: Display> Die<T> for Result<T, E> {
    open spec fn value(self) -> Option<T> {
        match self {
            Ok(t) => Some(t),
            Err(_) => None,
        }
    }

    open spec fn says(self, msg: Seq<char>, text: Seq<char>) -> bool {
        self matches Err(e) && exists|shown: String|
            to_string_from_display_ensures::<E>(&e, shown) && text == msg.push(' ') + shown@
    }

    fn or_die(self, program: &str, msg: &str) -> (r: Result<T, Exit>) {
        match self {
            Ok(t) => Ok(t),
            Err(e) => {
                let shown = e.to_string();
                let mut text = String::from_str(msg);
                text.push(' ');
                text.append(shown.as_str());
                assert(self.says(msg@, text@));
                Err(quit(program, text.as_str()))
            },
        }
    }
}

/// What a directory entry is.
#[derive(Debug, Clone, Copy, PartialEq, Eq, Structural)]
pub enum FileKind {
    File,
    Dir,
    Other,
}

/// What the file system says of an entry.
#[derive(Debug, Clone, Copy, PartialEq, Eq, Structural)]
pub struct Metadata {
    pub kind: FileKind,
    pub len: u64,
}

/// Questions to the outcome of asking for an entry's metadata.
pub trait MetadataLike: Sized {
    /// What the entry is, if the metadata could be had.
    spec fn kind(self) -> Option<FileKind>;

    /// Whether this is a directory.
    fn is_dir(self) -> (b: bool)
        ensures
            b == (self.kind() == Some(FileKind::Dir)),
    ;

    /// Whether this is a file.
    fn is_file(self) -> (b: bool)
        ensures
            b == (self.kind() == Some(FileKind::File)),
    ;
}

impl<E> MetadataLike for Result<Metadata, E> {
    open spec fn kind(self) -> Option<FileKind> {
        match self {
            Ok(meta) => Some(meta.kind),
            Err(_) => None,
        }
    }

    fn is_dir(self) -> (b: bool) {
        match self {
            Ok(meta) => meta.kind == FileKind::Dir,
            Err(_) => false,
        }
    }

    fn is_file(self) -> (b: bool) {
        match self {
            Ok(meta) => meta.kind == FileKind::File,
            Err(_) => false,
        }
    }
}

} // verus!
