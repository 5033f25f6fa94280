//! Open documents. A document owns its text and the tree parsed from it; the
//! tree is kept as spans of the text, and a tree of borrowed slices is handed
//! out for as long as the document is borrowed. A workspace registers
//! documents under identifiers.

use crate::error::{diagnostic, failure, HoconError};
use crate::grammar;
use crate::rules;
use crate::tree::SpanValue;
use crate::value::{HoconValue, ValueView};
use vstd::hash_map::StringHashMap;
use vstd::prelude::*;

verus! {

/// A text together with the tree that parsing it gives. There is no
/// document for a text that does not parse.
pub struct OpenFile {
    content: String,
    tree: SpanValue,
}

impl OpenFile {
    #[verifier::type_invariant]
    spec fn parsed(&self) -> bool {
        &&& self.tree.wf(self.content@)
        &&& grammar::document(self.content@) matches Ok((v, _)) && self.tree.view(self.content@)
            == v
    }

    /// The text of the document.
    pub closed spec fn text(&self) -> Seq<char> {
        self.content@
    }

    /// Makes the document for `content`, or fails as parsing `content`
    /// fails.
    pub fn new(content: String) -> (r: Result<OpenFile, HoconError>)
        ensures
            match grammar::document(content@) {
                Ok(_) => r matches Ok(file) && file.text() == content@,
                Err(h) => r matches Err(e) && e.message() == diagnostic(content@, h),
            },
    {
        let tree = match rules::document(content.as_str()) {
            Ok((tree, _)) => tree,
            Err(h) => {
                return Err(failure(h));
            },
        };
        Ok(OpenFile { content, tree })
    }

    /// The text of the document.
    pub fn content(&self) -> (r: &str)
        ensures
            r@ == self.text(),
    {
        self.content.as_str()
    }

    /// The tree of the document, borrowed from it: what parsing the text
    /// gives.
    pub fn get_ast(&self) -> (r: HoconValue<'_>)
        ensures
            grammar::document(self.text()) matches Ok((v, _)) && r@ == v,
    {
        proof {
            use_type_invariant(self);
        }
        self.tree.resolve(self.content.as_str())
    }
}

/// The state of a workspace: the text registered under each identifier.
pub type Registry = Map<Seq<char>, Seq<char>>;

/// The registry after `text` is opened under `id`: `text` replaces what was
/// registered under `id` if it parses, and nothing changes if it does not.
pub open spec fn opened(w: Registry, id: Seq<char>, text: Seq<char>) -> Registry {
    if grammar::document(text) is Ok {
        w.insert(id, text)
    } else {
        w
    }
}

/// The registry after `id` is closed.
pub open spec fn closed(w: Registry, id: Seq<char>) -> Registry {
    w.remove(id)
}

/// The tree registered under `id`, if any: what parsing the text registered
/// under `id` gives.
pub open spec fn looked_up(w: Registry, id: Seq<char>) -> Option<ValueView> {
    if w.contains_key(id) {
        match grammar::document(w[id]) {
            Ok((v, _)) => Some(v),
            Err(_) => None,
        }
    } else {
        None
    }
}

/// The documents that are open, by identifier.
pub struct Workspace {
    open_files: StringHashMap<OpenFile>,
}

impl View for Workspace {
    type V = Registry;

    closed spec fn view(&self) -> Registry {
        self.open_files@.map_values(|file: OpenFile| file.text())
    }
}

impl Workspace {
    /// A workspace without documents.
    pub fn new() -> (w: Workspace)
        ensures
            w@ == Map::<Seq<char>, Seq<char>>::empty(),
    {
        let w = Workspace { open_files: StringHashMap::new() };
        proof {
            assert(w@ =~= Map::<Seq<char>, Seq<char>>::empty());
        }
        w
    }

    /// Parses `content` and registers the document under `path`, in place of
    /// what was registered there. If `content` does not parse, the failure is
    /// returned and the workspace stays as it was.
    pub fn open_file(&mut self, path: String, content: String) -> (r: Result<(), HoconError>)
        ensures
            final(self)@ == opened(old(self)@, path@, content@),
            match grammar::document(content@) {
                Ok(_) => r is Ok,
                Err(h) => r matches Err(e) && e.message() == diagnostic(content@, h),
            },
    {
        let file = match OpenFile::new(content) {
            Ok(file) => file,
            Err(e) => {
                return Err(e);
            },
        };
        let ghost before = self.open_files@;
        self.open_files.insert(path, file);
        proof {
            assert(self@ =~= old(self)@.insert(path@, content@));
        }
        Ok(())
    }

    /// Removes the document registered under `path`, if there is one.
    pub fn close_file(&mut self, path: &str)
        ensures
            final(self)@ == closed(old(self)@, path@),
    {
        self.open_files.remove(path);
        proof {
            assert(self@ =~= old(self)@.remove(path@));
        }
    }

    /// The tree of the document registered under `path`, borrowed from the
    /// workspace, or nothing if no document is registered there.
    pub fn get_ast(&self, path: &str) -> (r: Option<HoconValue<'_>>)
        ensures
            match r {
                Some(v) => looked_up(self@, path@) == Some(v@),
                None => looked_up(self@, path@) is None,
            },
            r is Some <==> self@.contains_key(path@),
    {
        match self.open_files.get(path) {
            Some(file) => Some(file.get_ast()),
            None => None,
        }
    }

    /// The text of the document registered under `path`, or nothing if no
    /// document is registered there.
    pub fn get_content(&self, path: &str) -> (r: Option<&str>)
        ensures
            match r {
                Some(text) => self@.contains_key(path@) && self@[path@] == text@,
                None => !self@.contains_key(path@),
            },
    {
        match self.open_files.get(path) {
            Some(file) => Some(file.content()),
            None => None,
        }
    }
}

} // verus!
