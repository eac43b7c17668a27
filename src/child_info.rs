//! The children that an account may export the timeline of.

use vstd::prelude::*;
use crate::chars::{is_space, is_whitespace, chars_of, push_char};
use crate::error::{DecodeError, Fault, outcome};
use crate::json::{
    Json, field, string_at, decode_each, views, list_outcome, json_of_text, parse_string,
    lemma_decode_each_stops,
};

verus! {

/// The characters of `s` that follow its leading white space.
pub open spec fn skip_space(s: Seq<char>) -> Seq<char>
    decreases s.len(),
{
    if s.len() > 0 && is_space(s[0]) {
        skip_space(s.drop_first())
    } else {
        s
    }
}

/// The longest prefix of `s` that holds no white space.
pub open spec fn leading_word(s: Seq<char>) -> Seq<char>
    decreases s.len(),
{
    if s.len() > 0 && !is_space(s[0]) {
        seq![s[0]] + leading_word(s.drop_first())
    } else {
        Seq::empty()
    }
}

/// The first white-space delimited word of `name`, or `name` itself where it
/// holds no word at all.
pub open spec fn first_name_of(name: Seq<char>) -> Seq<char> {
    let rest = skip_space(name);
    if rest.len() == 0 {
        name
    } else {
        leading_word(rest)
    }
}

pub struct ChildInfo {
    pub id: String,
    pub full_name_with_institution: String,
    pub institution: String,
}

/// The mathematical value of a [`ChildInfo`].
pub struct ChildView {
    pub id: Seq<char>,
    pub full_name_with_institution: Seq<char>,
    pub institution: Seq<char>,
}

impl View for ChildInfo {
    type V = ChildView;

    open spec fn view(&self) -> ChildView {
        ChildView {
            id: self.id@,
            full_name_with_institution: self.full_name_with_institution@,
            institution: self.institution@,
        }
    }
}

/// What one element of the `children` listing decodes to.
pub open spec fn child_of(j: Json) -> Result<ChildView, Fault> {
    match string_at(j, "childId"@) {
        Err(e) => Err(e),
        Ok(id) => match string_at(j, "name"@) {
            Err(e) => Err(e),
            Ok(name) => match string_at(field(j, "institution"@), "title"@) {
                Err(e) => Err(e),
                Ok(institution) => Ok(ChildView { id, full_name_with_institution: name, institution }),
            },
        },
    }
}

/// What a children listing document decodes to.
pub open spec fn children_of(v: Json) -> Result<Seq<ChildView>, Fault> {
    match field(v, "children"@) {
        Json::Array(items) => decode_each(items@, |c: Json| child_of(c)),
        _ => Err(Fault::MissingArray { path: "children"@ }),
    }
}

impl ChildInfo {
    /// Decodes one element of the `children` listing.
    pub fn from_value(json: &Json) -> (r: Result<ChildInfo, DecodeError>)
        ensures
            outcome(r) == child_of(*json),
    {
        let id = parse_string(json, "childId")?;
        let full_name_with_institution = parse_string(json, "name")?;
        let institution = match json.get("institution") {
            Some(inst) => parse_string(inst, "title")?,
            None => {
                return Err(DecodeError::NotString { field: String::from_str("title") });
            },
        };
        Ok(ChildInfo { id, full_name_with_institution, institution })
    }

    /// The first word of the child's full name; the full name where it has no
    /// word.
    pub fn get_first_name(&self) -> (r: String)
        ensures
            r@ == first_name_of(self.full_name_with_institution@),
    {
        let cs = chars_of(self.full_name_with_institution.as_str());
        let n = cs.len();
        let mut i: usize = 0;
        proof {
            assert(cs@.subrange(0, n as int) =~= cs@);
        }
        while i < n && is_whitespace(cs[i])
            invariant
                n == cs@.len(),
                i <= n,
                skip_space(cs@) == skip_space(cs@.subrange(i as int, n as int)),
            decreases n - i,
        {
            proof {
                assert(cs@.subrange(i as int, n as int).drop_first()
                    =~= cs@.subrange(i + 1, n as int));
            }
            i = i + 1;
        }
        if i == n {
            proof {
                assert(cs@.subrange(i as int, n as int) =~= Seq::<char>::empty());
            }
            return self.full_name_with_institution.clone();
        }
        let ghost start = i;
        let mut word = String::new();
        while i < n && !is_whitespace(cs[i])
            invariant
                n == cs@.len(),
                start <= i <= n,
                leading_word(cs@.subrange(start as int, n as int))
                    == word@ + leading_word(cs@.subrange(i as int, n as int)),
            decreases n - i,
        {
            proof {
                assert(cs@.subrange(i as int, n as int).drop_first()
                    =~= cs@.subrange(i + 1, n as int));
                assert(seq![cs@[i as int]] + leading_word(cs@.subrange(i + 1, n as int))
                    == leading_word(cs@.subrange(i as int, n as int)));
                assert(word@ + seq![cs@[i as int]] + leading_word(cs@.subrange(i + 1, n as int))
                    =~= word@ + (seq![cs@[i as int]] + leading_word(cs@.subrange(i + 1, n as int))));
            }
            push_char(&mut word, cs[i]);
            i = i + 1;
        }
        proof {
            if i < n {
                assert(leading_word(cs@.subrange(i as int, n as int)) =~= Seq::<char>::empty());
            } else {
                assert(cs@.subrange(i as int, n as int) =~= Seq::<char>::empty());
            }
            assert(word@ + Seq::<char>::empty() =~= word@);
        }
        word
    }
}

/// The children of a decoded listing document, in order.
pub fn from_value(v: &Json) -> (r: Result<Vec<ChildInfo>, DecodeError>)
    ensures
        list_outcome(r) == children_of(*v),
{
    let items = match v.get("children") {
        Some(Json::Array(items)) => items,
        _ => {
            return Err(DecodeError::MissingArray { path: String::from_str("children") });
        },
    };
    let mut res: Vec<ChildInfo> = Vec::new();
    let mut i: usize = 0;
    proof {
        assert(items@.subrange(0, 0) =~= Seq::<Json>::empty());
        assert(views(res@) =~= Seq::<ChildView>::empty());
    }
    while i < items.len()
        invariant
            i <= items@.len(),
            field(*v, "children"@) == Json::Array(*items),
            decode_each(items@.subrange(0, i as int), |c: Json| child_of(c))
                == Ok::<Seq<ChildView>, Fault>(views(res@)),
        decreases items.len() - i,
    {
        proof {
            assert(items@.subrange(0, i + 1).drop_last() =~= items@.subrange(0, i as int));
        }
        match ChildInfo::from_value(&items[i]) {
            Ok(c) => {
                let ghost before = res@;
                let ghost cv = c@;
                res.push(c);
                proof {
                    assert(views(res@) =~= views(before).push(cv));
                }
            },
            Err(e) => {
                proof {
                    lemma_decode_each_stops(items@, i + 1, |c: Json| child_of(c));
                }
                return Err(e);
            },
        }
        i = i + 1;
    }
    proof {
        assert(items@.subrange(0, items@.len() as int) =~= items@);
    }
    Ok(res)
}

/// Reads the children listing of the account.
pub fn from_json(json: String) -> (r: Result<Vec<ChildInfo>, DecodeError>)
    ensures
        match json_of_text(json@) {
            Ok(v) => list_outcome(r) == children_of(v),
            Err(reason) => r matches Err(e) && e@ == (Fault::Syntax { reason }),
        },
{
    let v = Json::parse(json.as_str())?;
    from_value(&v)
}

} // verus!
