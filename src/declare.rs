//! Declaration lines and the check that keeps them from repeating.
use vstd::prelude::*;

use crate::text::{chars_of, occurs, occurs_in};

verus! {

/// `mod <name>;`
pub open spec fn private_decl(name: Seq<char>) -> Seq<char> {
    seq!['m', 'o', 'd', ' '] + name + seq![';']
}

/// `pub mod <name>;`
pub open spec fn public_decl(name: Seq<char>) -> Seq<char> {
    seq!['p', 'u', 'b', ' '] + private_decl(name)
}

/// The declaration of `name` in the visibility asked for.
pub open spec fn decl(name: Seq<char>, public: bool) -> Seq<char> {
    if public {
        public_decl(name)
    } else {
        private_decl(name)
    }
}

/// The declaration of `name` as a line, newline included.
pub open spec fn decl_line(name: Seq<char>, public: bool) -> Seq<char> {
    decl(name, public) + seq!['\n']
}

/// `content` already declares `name`, privately or publicly, anywhere in it.
pub open spec fn is_declared(content: Seq<char>, name: Seq<char>) -> bool {
    occurs_in(private_decl(name), content) || occurs_in(public_decl(name), content)
}

/// What is to be appended to a parent holding `content` so that it declares
/// `name`: nothing when it already does, else one declaration line.
pub open spec fn addition(content: Seq<char>, name: Seq<char>, public: bool) -> Option<Seq<char>> {
    if is_declared(content, name) {
        None
    } else {
        Some(decl_line(name, public))
    }
}

/// The declaration of `name`, without a newline.
pub fn declaration(name: &str, public: bool) -> (r: String)
    ensures
        r@ == decl(name@, public),
{
    let mut r = if public {
        String::from_str("pub mod ")
    } else {
        String::from_str("mod ")
    };
    r.append(name);
    r.append(";");
    proof {
        reveal_strlit("pub mod ");
        reveal_strlit("mod ");
        reveal_strlit(";");
        if public {
            assert(r@ =~= public_decl(name@));
        } else {
            assert(r@ =~= private_decl(name@));
        }
    }
    r
}

/// The declaration of `name` as a line ending in a newline.
pub fn declaration_line(name: &str, public: bool) -> (r: String)
    ensures
        r@ == decl_line(name@, public),
{
    let mut r = declaration(name, public);
    r.append("\n");
    proof {
        reveal_strlit("\n");
        assert(r@ =~= decl_line(name@, public));
    }
    r
}

/// The text to append to a parent file holding `content` so that it declares
/// `module`: `None` when a private or public declaration of it already occurs
/// anywhere in the text, else the declaration line in the visibility asked for.
pub fn declare_module(content: &str, module: &str, public: bool) -> (r: Option<String>)
    ensures
        addition(content@, module@, public) is None <==> r is None,
        addition(content@, module@, public) matches Some(line) ==> (r matches Some(s) && s@ == line),
{
    let text = chars_of(content);
    let private_form = declaration(module, false);
    let public_form = declaration(module, true);
    let p = chars_of(private_form.as_str());
    let q = chars_of(public_form.as_str());
    if occurs(&p, &text) || occurs(&q, &text) {
        None
    } else {
        Some(declaration_line(module, public))
    }
}

/// A parent that lacks a declaration of `name` gets exactly one line, the
/// declaration in the visibility asked for; once that line is appended,
/// a second run adds nothing.
pub proof fn lemma_declare_idempotent(content: Seq<char>, name: Seq<char>, public: bool)
    requires
        !is_declared(content, name),
    ensures
        addition(content, name, public) == Some(decl_line(name, public)),
        addition(content + decl_line(name, public), name, public) is None,
        addition(content + decl_line(name, public), name, !public) is None,
{
    let after = content + decl_line(name, public);
    let d = decl(name, public);
    let i = content.len() as int;
    assert(after.subrange(i, i + d.len()) =~= d);
    if public {
        assert(occurs_in(public_decl(name), after));
    } else {
        assert(occurs_in(private_decl(name), after));
    }
}

} // verus!
