//! The client's settings: its favourite channels, as kept in a JSON file.
use vstd::prelude::*;
use crate::json::{Json, quote, quoted};
use crate::models::{all_strings, strings_of};

verus! {

/// The client's settings.
#[derive(Debug, Clone, PartialEq)]
pub struct Config {
    /// The ids of the favourite channels.
    pub favorites: Vec<String>,
}

impl Default for Config {
    fn default() -> (r: Config)
        ensures
            r.favorites@.len() == 0,
    {
        Config { favorites: Vec::new() }
    }
}

/// The text of the ids `ids` as a JSON array.
pub open spec fn ids_text(ids: Seq<String>) -> Seq<char>
    decreases ids.len(),
{
    if ids.len() == 0 {
        Seq::empty()
    } else if ids.len() == 1 {
        quoted(ids[0]@)
    } else {
        ids_text(ids.drop_last()) + ","@ + quoted(ids.last()@)
    }
}

impl Config {
    /// Reads settings out of a parsed file: an object whose `favorites`
    /// member is an array of strings.
    pub fn from_json(j: &Json) -> (r: Option<Config>)
        ensures
            match j.field("favorites"@) {
                Some(Json::Array(items)) => match r {
                    Some(c) => all_strings(items@) && c.favorites@ == strings_of(items@),
                    None => !all_strings(items@),
                },
                _ => r is None,
            },
    {
        match j.get("favorites") {
            Some(Json::Array(items)) => {
                let mut out: Vec<String> = Vec::new();
                let mut i: usize = 0;
                while i < items.len()
                    invariant
                        i <= items@.len(),
                        j.field("favorites"@) == Some(Json::Array(*items)),
                        forall|k: int| 0 <= k < i ==> (#[trigger] crate::json::req_str(Some(items@[k]))) is Some,
                        out@ =~= strings_of(items@).subrange(0, i as int),
                    decreases items.len() - i,
                {
                    match &items[i] {
                        Json::Str(t) => out.push(t.clone()),
                        _ => {
                            assert(crate::json::req_str(Some(items@[i as int])) is None);
                            return None;
                        },
                    }
                    i = i + 1;
                }
                assert(out@ =~= strings_of(items@));
                Some(Config { favorites: out })
            },
            _ => None,
        }
    }

    /// Writes the settings as a JSON object.
    pub fn to_json_text(&self) -> (r: String)
        ensures
            r@ == "{\"favorites\":["@ + ids_text(self.favorites@) + "]}"@,
    {
        let mut body = String::new();
        let mut i: usize = 0;
        while i < self.favorites.len()
            invariant
                i <= self.favorites@.len(),
                body@ == ids_text(self.favorites@.subrange(0, i as int)),
            decreases self.favorites.len() - i,
        {
            let ghost prefix = self.favorites@.subrange(0, i + 1);
            assert(prefix.drop_last() =~= self.favorites@.subrange(0, i as int));
            if i > 0 {
                body.append(",");
            }
            body.append(quote(self.favorites[i].as_str()).as_str());
            proof {
                if i == 0 {
                    assert(body@ =~= quoted(prefix[0]@));
                }
            }
            i = i + 1;
        }
        assert(self.favorites@.subrange(0, self.favorites@.len() as int) =~= self.favorites@);
        let mut r = String::from_str("{\"favorites\":[");
        r.append(body.as_str());
        r.append("]}");
        r
    }
}

} // verus!
