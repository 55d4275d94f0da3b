//! The page writer collaborator: where a fetched page's content is filed.

use vstd::prelude::*;

verus! {

/// A URL flattened to a file name: each `://` and each `/` becomes one
/// underscore.
pub open spec fn flatten_url(s: Seq<char>) -> Seq<char>
    decreases s.len(),
{
    if s.len() == 0 {
        Seq::empty()
    } else if s.len() >= 3 && s[0] == ':' && s[1] == '/' && s[2] == '/' {
        seq!['_'] + flatten_url(s.skip(3))
    } else if s[0] == '/' {
        seq!['_'] + flatten_url(s.skip(1))
    } else {
        seq![s[0]] + flatten_url(s.skip(1))
    }
}

/// The output file path for a page fetched from `url`: the flattened URL as
/// a Markdown file under the output directory.
pub open spec fn path_of(url: Seq<char>) -> Seq<char> {
    "output/"@ + flatten_url(url) + ".md"@
}

/// Files fetched page content as Markdown.  Writing is I/O and is done by
/// the caller, under the path this type derives.
pub struct Writer;

impl Writer {
    /// A writer.
    pub fn new() -> (r: Self)
        ensures
            true,
    {
        Writer
    }

    /// The path under which the content of the page fetched from `url` is
    /// filed.
    pub fn output_path(&self, url: &str) -> (r: String)
        ensures
            r@ == path_of(url@),
    {
        let n = url.unicode_len();
        let mut flat = String::new();
        let mut i: usize = 0;
        proof {
            reveal_strlit("_");
            assert("_"@ =~= seq!['_']);
            assert(url@.skip(0) =~= url@);
        }
        while i < n
            invariant
                i <= n,
                n == url@.len(),
                "_"@ == seq!['_'],
                (flat@ + flatten_url(url@.skip(i as int)) == flatten_url(url@)),
            decreases n - i,
        {
            let ghost pre = flat@;
            let ghost s = url@.skip(i as int);
            if n - i > 2 && url.get_char(i) == ':' && url.get_char(i + 1) == '/' && url.get_char(
                i + 2,
            ) == '/' {
                flat.append("_");
                proof {
                    assert(s.skip(3) =~= url@.skip(i as int + 3));
                    assert(flatten_url(s) == seq!['_'] + flatten_url(url@.skip(i as int + 3)));
                    assert(pre + (seq!['_'] + flatten_url(url@.skip(i as int + 3))) =~= (pre
                        + seq!['_']) + flatten_url(url@.skip(i as int + 3)));
                }
                i += 3;
            } else if url.get_char(i) == '/' {
                flat.append("_");
                proof {
                    assert(s.skip(1) =~= url@.skip(i as int + 1));
                    assert(flatten_url(s) == seq!['_'] + flatten_url(url@.skip(i as int + 1)));
                    assert(pre + (seq!['_'] + flatten_url(url@.skip(i as int + 1))) =~= (pre
                        + seq!['_']) + flatten_url(url@.skip(i as int + 1)));
                }
                i += 1;
            } else {
                let c = url.substring_char(i, i + 1);
                flat.append(c);
                proof {
                    assert(s.skip(1) =~= url@.skip(i as int + 1));
                    assert(c@ =~= seq![url@[i as int]]);
                    assert(flatten_url(s) == seq![s[0]] + flatten_url(url@.skip(i as int + 1)));
                    assert(pre + (seq![s[0]] + flatten_url(url@.skip(i as int + 1))) =~= (pre
                        + seq![s[0]]) + flatten_url(url@.skip(i as int + 1)));
                }
                i += 1;
            }
        }
        proof {
            assert(url@.skip(n as int) =~= Seq::<char>::empty());
            assert(flatten_url(url@.skip(n as int)) =~= Seq::<char>::empty());
            assert(flat@ + Seq::<char>::empty() =~= flat@);
        }
        let mut out = String::from_str("output/");
        out.append(flat.as_str());
        out.append(".md");
        out
    }
}

} // verus!
