//! Static file serving configuration.
//!
//! Reading the file itself is I/O and lives with the server embedding; the
//! path handling and the content-type decision are here.

use vstd::prelude::*;

use crate::strutil::{rfind_char, spec_rfind, str_eq, substring};

verus! {

/// Serves static files from a specified folder.
pub struct ServeStatic {
    folder_path: String,
}

/// `path` without its trailing slashes.
pub open spec fn spec_trim_trailing_slashes(s: Seq<char>) -> Seq<char>
    decreases s.len(),
{
    if s.len() > 0 && s.last() == '/' {
        spec_trim_trailing_slashes(s.drop_last())
    } else {
        s
    }
}

/// The file name of a path: its final slash-separated piece, with trailing
/// slashes ignored.
pub open spec fn spec_file_name(path: Seq<char>) -> Seq<char> {
    let t = spec_trim_trailing_slashes(path);
    match spec_rfind(t, '/') {
        Some(i) => t.skip(i + 1),
        None => t,
    }
}

/// The extension of a path: the text after the last dot of its file name. A
/// file name without a dot, or whose only dot leads it (a hidden file such as
/// one starting with a dot), has none; neither do the empty name and the two
/// relative-directory names made of dots.
pub open spec fn spec_extension_of(path: Seq<char>) -> Option<Seq<char>> {
    let f = spec_file_name(path);
    if f.len() == 0 || f == "."@ || f == ".."@ {
        None
    } else {
        match spec_rfind(f, '.') {
            Some(i) => if i > 0 {
                Some(f.skip(i + 1))
            } else {
                None
            },
            None => None,
        }
    }
}

proof fn lemma_trim_trailing_slashes(s: Seq<char>, end: int)
    requires
        0 <= end <= s.len(),
        forall|j: int| end <= j < s.len() ==> s[j] == '/',
        end == 0 || s[end - 1] != '/',
    ensures
        spec_trim_trailing_slashes(s) =~= s.take(end),
    decreases s.len(),
{
    if end == s.len() {
        if s.len() > 0 {
            assert(s.last() != '/');
        }
        assert(s.take(end) =~= s);
    } else {
        assert(s.last() == '/');
        lemma_trim_trailing_slashes(s.drop_last(), end);
        assert(s.drop_last().take(end) =~= s.take(end));
    }
}

impl ServeStatic {
    /// The folder the files are served from.
    pub closed spec fn spec_folder(&self) -> Seq<char> {
        self.folder_path@
    }

    /// Creates a new instance of ServeStatic serving from the given folder.
    pub fn new(folder_path: &str) -> (r: ServeStatic)
        ensures
            r.spec_folder() == folder_path@,
    {
        ServeStatic { folder_path: folder_path.to_owned() }
    }

    /// The folder the files are served from.
    pub fn folder(&self) -> (r: &str)
        ensures
            r@ == self.spec_folder(),
    {
        self.folder_path.as_str()
    }

    /// The file extension of a path; exactly the paths whose file name has an
    /// extension yield one, and the error names the path.
    pub fn get_extension(&self, path: &str) -> (r: Result<String, String>)
        ensures
            match r {
                Ok(ext) => spec_extension_of(path@) == Some(ext@),
                Err(m) => spec_extension_of(path@) is None && m@
                    == "No extension found for file: "@ + path@,
            },
    {
        let len = path.unicode_len();
        let mut end: usize = len;
        while end > 0 && path.get_char(end - 1) == '/'
            invariant
                len == path@.len(),
                0 <= end <= len,
                forall|j: int| end <= j < len ==> path@[j] == '/',
            decreases end,
        {
            end = end - 1;
        }
        proof {
            lemma_trim_trailing_slashes(path@, end as int);
        }
        let trimmed = substring(path, 0, end);
        let start: usize = match rfind_char(trimmed.as_str(), '/') {
            Some(i) => i + 1,
            None => 0,
        };
        let file = substring(trimmed.as_str(), start, end);
        proof {
            assert(file@ =~= spec_file_name(path@));
        }
        if file.as_str().unicode_len() == 0 || str_eq(file.as_str(), ".") || str_eq(
            file.as_str(),
            "..",
        ) {
            return Err(String::from_str("No extension found for file: ").concat(path));
        }
        let flen = file.as_str().unicode_len();
        match rfind_char(file.as_str(), '.') {
            Some(d) => {
                if d == 0 {
                    Err(String::from_str("No extension found for file: ").concat(path))
                } else {
                    let ext = substring(file.as_str(), d + 1, flen);
                    proof {
                        assert(ext@ =~= file@.skip(d + 1));
                    }
                    Ok(ext)
                }
            },
            None => Err(String::from_str("No extension found for file: ").concat(path)),
        }
    }
}

impl Default for ServeStatic {
    /// Serves from the `public` folder.
    fn default() -> (r: Self)
        ensures
            r.spec_folder() == "public"@,
    {
        Self::new("public")
    }
}

} // verus!
