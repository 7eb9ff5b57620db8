//! Files that an HTTP server socket serves from memory, and the routing of
//! a request to memory, to disk, or to "not found".
use vstd::prelude::*;

use crate::paths::{build_and_validate_path, target_style, validated_path};
use crate::socket::PollnetMessage;
use crate::text::str_eq;

verus! {

/// The data stored last under `name`, searching from the newest entry.
pub open spec fn lookup_file(files: Seq<(String, Vec<u8>)>, name: Seq<char>) -> Option<Seq<u8>>
    decreases files.len(),
{
    if files.len() == 0 {
        None
    } else if files.last().0@ == name {
        Some(files.last().1@)
    } else {
        lookup_file(files.drop_last(), name)
    }
}

/// Files served from memory, by request path. They are kept as a list of
/// pairs, newest last, and the newest entry for a path is the one served:
/// the specification vstd gives `HashMap` covers only keys that obey its
/// key model (integers and `bool`), and a path is a `String`.
pub struct VirtualFiles {
    files: Vec<(String, Vec<u8>)>,
}

impl View for VirtualFiles {
    type V = Map<Seq<char>, Seq<u8>>;

    closed spec fn view(&self) -> Map<Seq<char>, Seq<u8>> {
        Map::new(
            |k: Seq<char>| lookup_file(self.files@, k) is Some,
            |k: Seq<char>| lookup_file(self.files@, k).unwrap(),
        )
    }
}

impl VirtualFiles {
    /// No files.
    pub fn new() -> (vf: VirtualFiles)
        ensures
            vf@ == Map::<Seq<char>, Seq<u8>>::empty(),
    {
        let vf = VirtualFiles { files: Vec::new() };
        assert(vf@ =~= Map::<Seq<char>, Seq<u8>>::empty());
        vf
    }

    /// The data served under `name`, if any.
    pub fn get(&self, name: &str) -> (r: Option<&Vec<u8>>)
        ensures
            match r {
                Some(d) => self@.contains_key(name@) && d@ == self@[name@],
                None => !self@.contains_key(name@),
            },
    {
        let mut i = self.files.len();
        assert(self.files@.take(i as int) =~= self.files@);
        while i > 0
            invariant
                i <= self.files@.len(),
                lookup_file(self.files@, name@) == lookup_file(self.files@.take(i as int), name@),
            decreases i,
        {
            let ghost pre = self.files@.take(i as int);
            assert(pre.drop_last() =~= self.files@.take(i - 1));
            let (n, d) = &self.files[i - 1];
            if str_eq(n.as_str(), name) {
                assert(pre.last() == self.files@[i - 1]);
                return Some(d);
            }
            i = i - 1;
        }
        None
    }

    /// Stores `data` under `name`, replacing what was there.
    pub fn add(&mut self, name: String, data: Vec<u8>)
        ensures
            final(self)@ == old(self)@.insert(name@, data@),
    {
        self.remove(name.as_str());
        let ghost before = self.files@;
        let ghost removed = self@;
        let ghost key = name@;
        let ghost value = data@;
        self.files.push((name, data));
        proof {
            assert(self.files@.drop_last() =~= before);
            assert forall|k: Seq<char>| #[trigger] lookup_file(self.files@, k) == if k == key {
                Some(value)
            } else {
                lookup_file(before, k)
            } by {}
            assert forall|k: Seq<char>| #[trigger] self@.contains_key(k) == old(self)@.insert(key, value).contains_key(k)
                by {
                if k != key {
                    assert(removed.contains_key(k) == (lookup_file(before, k) is Some));
                }
            }
            assert forall|k: Seq<char>| self@.contains_key(k) implies #[trigger] self@[k] == old(self)@.insert(key, value)[k]
                by {
                if k != key {
                    assert(removed.contains_key(k) == (lookup_file(before, k) is Some));
                    assert(removed[k] == lookup_file(before, k).unwrap());
                }
            }
            assert(self@ =~= old(self)@.insert(key, value));
        }
    }

    /// Stops serving `name`.
    pub fn remove(&mut self, name: &str)
        ensures
            final(self)@ == old(self)@.remove(name@),
    {
        let mut kept: Vec<(String, Vec<u8>)> = Vec::new();
        let mut i: usize = 0;
        while i < self.files.len()
            invariant
                i <= self.files@.len(),
                self.files@ == old(self).files@,
                forall|k: Seq<char>| #[trigger] lookup_file(kept@, k) == if k == name@ {
                    None
                } else {
                    lookup_file(self.files@.take(i as int), k)
                },
            decreases self.files@.len() - i,
        {
            let ghost pre = self.files@.take(i + 1);
            assert(pre.drop_last() =~= self.files@.take(i as int));
            let (n, d) = &self.files[i];
            assert(pre.last() == self.files@[i as int]);
            if !str_eq(n.as_str(), name) {
                let ghost before = kept@;
                let entry = (n.clone(), d.clone());
                assert(entry.1@ =~= d@);
                kept.push(entry);
                assert(kept@.drop_last() =~= before);
                assert forall|k: Seq<char>| #[trigger] lookup_file(kept@, k) == if k == name@ {
                    None
                } else {
                    lookup_file(pre, k)
                } by {
                    assert(kept@.last() == entry);
                    assert(entry.0@ == n@);
                    assert(pre.last().0@ == n@);
                    assert(pre.last().1@ == d@);
                    assert(lookup_file(before, k) == if k == name@ {
                        None
                    } else {
                        lookup_file(self.files@.take(i as int), k)
                    });
                }
            } else {
                assert forall|k: Seq<char>| #[trigger] lookup_file(kept@, k) == if k == name@ {
                    None
                } else {
                    lookup_file(pre, k)
                } by {
                    assert(pre.last().0@ == name@);
                    assert(pre.drop_last() == self.files@.take(i as int));
                    if k != name@ {
                        assert(pre.len() > 0);
                        assert(lookup_file(pre, k) == lookup_file(pre.drop_last(), k));
                    }
                    assert(lookup_file(kept@, k) == if k == name@ {
                        None
                    } else {
                        lookup_file(self.files@.take(i as int), k)
                    });
                }
            }
            i = i + 1;
        }
        assert(self.files@.take(self.files@.len() as int) =~= self.files@);
        self.files = kept;
        assert(self@ =~= old(self)@.remove(name@));
    }
}

/// Where a request to a file server is answered from.
pub enum HttpRoute {
    /// From memory, with these bytes.
    Memory(Vec<u8>),
    /// From the file at this path.
    File(String),
    /// Not at all: 404.
    NotFound,
}

/// The route that a validated path `v` gives: its file, or 404.
pub open spec fn routes_to(route: HttpRoute, v: Option<Seq<char>>) -> bool {
    match v {
        Some(p) => route matches HttpRoute::File(f) && f@ == p,
        None => route is NotFound,
    }
}

/// The route of a request for `path` under `dir`, with the path read as
/// the target the library is built for reads paths.
pub open spec fn file_route(route: HttpRoute, dir: Seq<char>, path: Seq<char>) -> bool {
    routes_to(route, validated_path(target_style(), dir, path))
}

/// The route of a request for `path` to a static directory: the file it
/// names there, or 404 when the path climbs out.
pub fn simple_file_send(basedir: &str, path: &str) -> (route: HttpRoute)
    ensures
        file_route(route, basedir@, path@),
{
    match build_and_validate_path(basedir, path) {
        Some(p) => HttpRoute::File(p),
        None => HttpRoute::NotFound,
    }
}

/// The route of a request for `path`: a file in memory under that exact
/// path comes first, then the static directory if there is one.
pub fn handle_http_request(path: &str, static_dir: &Option<String>, files: &VirtualFiles) -> (route:
    HttpRoute)
    ensures
        files@.contains_key(path@) ==> (route matches HttpRoute::Memory(d) && d@ == files@[path@]),
        !files@.contains_key(path@) ==> match static_dir {
            Some(dir) => file_route(route, dir@, path@),
            None => route is NotFound,
        },
{
    if let Some(file_data) = files.get(path) {
        return HttpRoute::Memory(file_data.clone());
    }
    match static_dir {
        Some(dir) => simple_file_send(dir.as_str(), path),
        None => HttpRoute::NotFound,
    }
}

/// A static HTTP server: its directory, if any, and its files in memory.
pub struct HttpServer {
    pub serve_dir: Option<String>,
    pub files: VirtualFiles,
}

/// Whether a server keeps running after a message from the host: a
/// disconnect, an error, or a closed channel stops it.
pub open spec fn server_continues(msg: Option<PollnetMessage>) -> bool {
    match msg {
        Some(PollnetMessage::Disconnect) => false,
        Some(PollnetMessage::Error(_)) => false,
        None => false,
        _ => true,
    }
}

impl HttpServer {
    /// A server for `serve_dir` with no files in memory.
    pub fn new(serve_dir: Option<String>) -> (s: HttpServer)
        ensures
            s.serve_dir == serve_dir,
            s.files@ == Map::<Seq<char>, Seq<u8>>::empty(),
    {
        HttpServer { serve_dir, files: VirtualFiles::new() }
    }

    /// Handles a message from the host: adds or removes a file in memory,
    /// and says whether the server keeps running.
    pub fn control(&mut self, msg: Option<PollnetMessage>) -> (running: bool)
        ensures
            running == server_continues(msg),
            final(self).serve_dir == old(self).serve_dir,
            final(self).files@ == match msg {
                Some(PollnetMessage::FileAdd(name, data)) => old(self).files@.insert(name@, data@),
                Some(PollnetMessage::FileRemove(name)) => old(self).files@.remove(name@),
                _ => old(self).files@,
            },
    {
        match msg {
            Some(PollnetMessage::Disconnect) | Some(PollnetMessage::Error(_)) | None => false,
            Some(PollnetMessage::FileAdd(filename, filedata)) => {
                self.files.add(filename, filedata);
                true
            },
            Some(PollnetMessage::FileRemove(filename)) => {
                self.files.remove(filename.as_str());
                true
            },
            _ => true,
        }
    }

    /// The route of a request for `path`.
    pub fn route(&self, path: &str) -> (route: HttpRoute)
        ensures
            self.files@.contains_key(path@) ==> (route matches HttpRoute::Memory(d) && d@
                == self.files@[path@]),
            !self.files@.contains_key(path@) ==> match self.serve_dir {
                Some(dir) => file_route(route, dir@, path@),
                None => route is NotFound,
            },
    {
        handle_http_request(path, &self.serve_dir, &self.files)
    }
}

} // verus!
