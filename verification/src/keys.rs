//! The field names and fixed markers of the document format, as byte
//! sequences: a spec-level constant and an executable constructor for each.

use vstd::prelude::*;

verus! {
/// The bytes of `"date"`.
pub open spec fn spec_key_date() -> Seq<u8> {
    seq![100u8, 97, 116, 101]
}

/// The bytes of `"date"`.
pub fn key_date() -> (r: Vec<u8>)
    ensures
        r@ == spec_key_date(),
{
    let mut v: Vec<u8> = Vec::new();
    v.push(100);
    v.push(97);
    v.push(116);
    v.push(101);
    proof {
        assert(v@ =~= spec_key_date());
    }
    v
}

/// The bytes of `"updated"`.
pub open spec fn spec_key_updated() -> Seq<u8> {
    seq![117u8, 112, 100, 97, 116, 101, 100]
}

/// The bytes of `"updated"`.
pub fn key_updated() -> (r: Vec<u8>)
    ensures
        r@ == spec_key_updated(),
{
    let mut v: Vec<u8> = Vec::new();
    v.push(117);
    v.push(112);
    v.push(100);
    v.push(97);
    v.push(116);
    v.push(101);
    v.push(100);
    proof {
        assert(v@ =~= spec_key_updated());
    }
    v
}

/// The bytes of `"title"`.
pub open spec fn spec_key_title() -> Seq<u8> {
    seq![116u8, 105, 116, 108, 101]
}

/// The bytes of `"title"`.
pub fn key_title() -> (r: Vec<u8>)
    ensures
        r@ == spec_key_title(),
{
    let mut v: Vec<u8> = Vec::new();
    v.push(116);
    v.push(105);
    v.push(116);
    v.push(108);
    v.push(101);
    proof {
        assert(v@ =~= spec_key_title());
    }
    v
}

/// The bytes of `"author"`.
pub open spec fn spec_key_author() -> Seq<u8> {
    seq![97u8, 117, 116, 104, 111, 114]
}

/// The bytes of `"author"`.
pub fn key_author() -> (r: Vec<u8>)
    ensures
        r@ == spec_key_author(),
{
    let mut v: Vec<u8> = Vec::new();
    v.push(97);
    v.push(117);
    v.push(116);
    v.push(104);
    v.push(111);
    v.push(114);
    proof {
        assert(v@ =~= spec_key_author());
    }
    v
}

/// The bytes of `"categories"`.
pub open spec fn spec_key_categories() -> Seq<u8> {
    seq![99u8, 97, 116, 101, 103, 111, 114, 105, 101, 115]
}

/// The bytes of `"categories"`.
pub fn key_categories() -> (r: Vec<u8>)
    ensures
        r@ == spec_key_categories(),
{
    let mut v: Vec<u8> = Vec::new();
    v.push(99);
    v.push(97);
    v.push(116);
    v.push(101);
    v.push(103);
    v.push(111);
    v.push(114);
    v.push(105);
    v.push(101);
    v.push(115);
    proof {
        assert(v@ =~= spec_key_categories());
    }
    v
}

/// The bytes of `"category"`.
pub open spec fn spec_key_category() -> Seq<u8> {
    seq![99u8, 97, 116, 101, 103, 111, 114, 121]
}

/// The bytes of `"category"`.
pub fn key_category() -> (r: Vec<u8>)
    ensures
        r@ == spec_key_category(),
{
    let mut v: Vec<u8> = Vec::new();
    v.push(99);
    v.push(97);
    v.push(116);
    v.push(101);
    v.push(103);
    v.push(111);
    v.push(114);
    v.push(121);
    proof {
        assert(v@ =~= spec_key_category());
    }
    v
}

/// The bytes of `"slug"`.
pub open spec fn spec_key_slug() -> Seq<u8> {
    seq![115u8, 108, 117, 103]
}

/// The bytes of `"slug"`.
pub fn key_slug() -> (r: Vec<u8>)
    ensures
        r@ == spec_key_slug(),
{
    let mut v: Vec<u8> = Vec::new();
    v.push(115);
    v.push(108);
    v.push(117);
    v.push(103);
    proof {
        assert(v@ =~= spec_key_slug());
    }
    v
}

/// The bytes of `"path"`.
pub open spec fn spec_key_path() -> Seq<u8> {
    seq![112u8, 97, 116, 104]
}

/// The bytes of `"path"`.
pub fn key_path() -> (r: Vec<u8>)
    ensures
        r@ == spec_key_path(),
{
    let mut v: Vec<u8> = Vec::new();
    v.push(112);
    v.push(97);
    v.push(116);
    v.push(104);
    proof {
        assert(v@ =~= spec_key_path());
    }
    v
}

/// The bytes of `"taxonomies"`.
pub open spec fn spec_key_taxonomies() -> Seq<u8> {
    seq![116u8, 97, 120, 111, 110, 111, 109, 105, 101, 115]
}

/// The bytes of `"taxonomies"`.
pub fn key_taxonomies() -> (r: Vec<u8>)
    ensures
        r@ == spec_key_taxonomies(),
{
    let mut v: Vec<u8> = Vec::new();
    v.push(116);
    v.push(97);
    v.push(120);
    v.push(111);
    v.push(110);
    v.push(111);
    v.push(109);
    v.push(105);
    v.push(101);
    v.push(115);
    proof {
        assert(v@ =~= spec_key_taxonomies());
    }
    v
}

/// The bytes of `"---"`.
pub open spec fn spec_yaml_delim() -> Seq<u8> {
    seq![45u8, 45, 45]
}

/// The bytes of `"---"`.
pub fn yaml_delim() -> (r: Vec<u8>)
    ensures
        r@ == spec_yaml_delim(),
{
    let mut v: Vec<u8> = Vec::new();
    v.push(45);
    v.push(45);
    v.push(45);
    proof {
        assert(v@ =~= spec_yaml_delim());
    }
    v
}

/// The bytes of `"+++"`.
pub open spec fn spec_toml_delim() -> Seq<u8> {
    seq![43u8, 43, 43]
}

/// The bytes of `"+++"`.
pub fn toml_delim() -> (r: Vec<u8>)
    ensures
        r@ == spec_toml_delim(),
{
    let mut v: Vec<u8> = Vec::new();
    v.push(43);
    v.push(43);
    v.push(43);
    proof {
        assert(v@ =~= spec_toml_delim());
    }
    v
}

/// The bytes of `"/blog/"`.
pub open spec fn spec_blog_prefix() -> Seq<u8> {
    seq![47u8, 98, 108, 111, 103, 47]
}

/// The bytes of `"/blog/"`.
pub fn blog_prefix() -> (r: Vec<u8>)
    ensures
        r@ == spec_blog_prefix(),
{
    let mut v: Vec<u8> = Vec::new();
    v.push(47);
    v.push(98);
    v.push(108);
    v.push(111);
    v.push(103);
    v.push(47);
    proof {
        assert(v@ =~= spec_blog_prefix());
    }
    v
}

} // verus!
