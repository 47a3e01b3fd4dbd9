use vstd::prelude::*;
use vstd::string::StrSliceExecFns;
use crate::models::{models_of, StructInfo, StructModel, FieldModel, MethodModel};
use crate::text::{
    chars_vec, find_char, first_idx, has_char, insert_unique, lemma_trim_len, push_unique,
    rfind_char, rfind_idx, string_eq, trim_range, trim_spec,
};

verus! {

/// All type names found in a raw type-expression text: references are
/// unwrapped, and a generic application contributes both the outer container
/// name and, recursively, every comma-separated type-parameter name.
pub open spec fn extract_tys_spec(t: Seq<char>) -> Seq<Seq<char>>
    decreases t.len(), 0int,
    via extract_tys_spec_dec
{
    let t1 = trim_spec(t);
    if t1.len() > 0 && t1[0] == '&' {
        let rest = trim_spec(t1.subrange(1, t1.len() as int));
        if rest.len() >= 4 && rest[0] == 'm' && rest[1] == 'u' && rest[2] == 't' && rest[3]
            == ' ' {
            extract_tys_spec(rest.subrange(4, rest.len() as int))
        } else {
            extract_tys_spec(rest)
        }
    } else if has_char(t1, '<') {
        let start = first_idx(t1, '<');
        let base = trim_spec(t1.subrange(0, start));
        let close = if has_char(t1, '>') {
            rfind_idx(t1, '>')
        } else {
            t1.len() as int
        };
        let inner = if start + 1 <= close {
            t1.subrange(start + 1, close)
        } else {
            Seq::empty()
        };
        seq![base] + extract_parts_spec(inner)
    } else {
        seq![t1]
    }
}

/// The type names found in each comma-separated piece of the text, in order.
pub open spec fn extract_parts_spec(t: Seq<char>) -> Seq<Seq<char>>
    decreases t.len(), 1int,
    via extract_parts_spec_dec
{
    if !has_char(t, ',') {
        extract_tys_spec(t)
    } else {
        let i = first_idx(t, ',');
        extract_tys_spec(t.subrange(0, i)) + extract_parts_spec(t.subrange(i + 1, t.len() as int))
    }
}

pub proof fn lemma_first_idx_bounds(t: Seq<char>, c: char)
    requires
        has_char(t, c),
    ensures
        0 <= first_idx(t, c) < t.len(),
        t[first_idx(t, c)] == c,
        forall|j: int| 0 <= j < first_idx(t, c) ==> t[j] != c,
    decreases t.len(),
{
    if t.len() > 0 && t[0] != c {
        let t1 = t.subrange(1, t.len() as int);
        let w = choose|i: int| 0 <= i < t.len() && t[i] == c;
        assert(t1[w - 1] == c);
        lemma_first_idx_bounds(t1, c);
        assert(forall|j: int| 1 <= j < first_idx(t, c) ==> t[j] == t1[j - 1] && t1[j - 1] != c);
    }
}

pub proof fn lemma_rfind_idx_bounds(t: Seq<char>, c: char)
    requires
        has_char(t, c),
    ensures
        0 <= rfind_idx(t, c) < t.len(),
        t[rfind_idx(t, c)] == c,
        forall|j: int| rfind_idx(t, c) < j < t.len() ==> t[j] != c,
    decreases t.len(),
{
    if t.len() > 0 && t[t.len() - 1] != c {
        let t1 = t.drop_last();
        let w = choose|i: int| 0 <= i < t.len() && t[i] == c;
        assert(t1[w] == c);
        lemma_rfind_idx_bounds(t1, c);
        assert(forall|j: int| rfind_idx(t, c) < j < t.len() - 1 ==> t[j] == t1[j] && t1[j] != c);
    }
}

#[via_fn]
proof fn extract_tys_spec_dec(t: Seq<char>) {
    lemma_trim_len(t);
    let t1 = trim_spec(t);
    if t1.len() > 0 && t1[0] == '&' {
        lemma_trim_len(t1.subrange(1, t1.len() as int));
    } else if has_char(t1, '<') {
        lemma_first_idx_bounds(t1, '<');
        if has_char(t1, '>') {
            lemma_rfind_idx_bounds(t1, '>');
        }
    }
}

#[via_fn]
proof fn extract_parts_spec_dec(t: Seq<char>) {
    if has_char(t, ',') {
        lemma_first_idx_bounds(t, ',');
    }
}

/// Every list of extracted type names holds at least one entry.
pub proof fn lemma_extract_tys_nonempty(t: Seq<char>)
    ensures
        extract_tys_spec(t).len() >= 1,
    decreases t.len(), 0int,
{
    lemma_trim_len(t);
    let t1 = trim_spec(t);
    if t1.len() > 0 && t1[0] == '&' {
        lemma_trim_len(t1.subrange(1, t1.len() as int));
        let rest = trim_spec(t1.subrange(1, t1.len() as int));
        if rest.len() >= 4 && rest[0] == 'm' && rest[1] == 'u' && rest[2] == 't' && rest[3]
            == ' ' {
            lemma_extract_tys_nonempty(rest.subrange(4, rest.len() as int));
        } else {
            lemma_extract_tys_nonempty(rest);
        }
    }
}

/// Extract all type names from a raw type text, for example the container
/// and the element name from a generic application, or the referent name
/// from behind a reference.
pub fn extract_all_types(ty: &str) -> (r: Vec<String>)
    ensures
        r.deep_view() == extract_tys_spec(ty@),
{
    let chars = chars_vec(ty);
    let mut out: Vec<String> = Vec::new();
    let n = chars.len();
    extract_range(ty, &chars, 0, n, &mut out);
    proof {
        assert(ty@.subrange(0, ty@.len() as int) =~= ty@);
        assert(out.deep_view() =~= extract_tys_spec(ty@));
    }
    out
}

/// Extract the base type name from a type text: the first of the names that
/// `extract_all_types` yields.
pub fn extract_type_name(ty: &str) -> (r: Option<String>)
    ensures
        match r {
            Some(name) => name@ == extract_tys_spec(ty@)[0],
            None => false,
        },
{
    let v = extract_all_types(ty);
    proof {
        lemma_extract_tys_nonempty(ty@);
        assert(v.deep_view()[0] == v@[0]@);
    }
    Some(v[0].clone())
}

fn extract_range(s: &str, chars: &Vec<char>, lo: usize, hi: usize, out: &mut Vec<String>)
    requires
        chars@ == s@,
        lo <= hi <= s@.len(),
    ensures
        final(out).deep_view() == old(out).deep_view() + extract_tys_spec(
            s@.subrange(lo as int, hi as int),
        ),
    decreases hi - lo, 0int,
{
    let ghost t = s@.subrange(lo as int, hi as int);
    let (a, b) = trim_range(chars, lo, hi);
    let ghost t1 = trim_spec(t);
    proof {
        assert(t1 == s@.subrange(a as int, b as int));
        assert(t1.len() == b - a);
        if a < b {
            assert(t1[0] == s@[a as int]);
        }
    }
    if a < b && chars[a] == '&' {
        let (c, d) = trim_range(chars, a + 1, b);
        proof {
            assert(s@.subrange(a + 1, b as int) =~= t1.subrange(1, t1.len() as int));
            assert(s@.subrange(c as int, d as int) == trim_spec(
                t1.subrange(1, t1.len() as int),
            ));
        }
        let ghost rest = trim_spec(t1.subrange(1, t1.len() as int));
        proof {
            assert(rest.len() == d - c);
            if d - c >= 4 {
                assert(rest[0] == s@[c as int]);
                assert(rest[1] == s@[c + 1]);
                assert(rest[2] == s@[c + 2]);
                assert(rest[3] == s@[c + 3]);
            }
        }
        if d - c >= 4 && chars[c] == 'm' && chars[c + 1] == 'u' && chars[c + 2] == 't' && chars[c
            + 3] == ' ' {
            proof {
                assert(rest.subrange(4, rest.len() as int) =~= s@.subrange(c + 4, d as int));
            }
            extract_range(s, chars, c + 4, d, out);
        } else {
            extract_range(s, chars, c, d, out);
        }
    } else {
        let ghost prior = out.deep_view();
        match find_char(chars, a, b, '<') {
            Some(p) => {
                proof {
                    assert(s@.subrange(a as int, b as int) =~= t1);
                    assert(has_char(t1, '<'));
                    assert(first_idx(t1, '<') == p - a);
                    assert(s@.subrange(a as int, p as int) =~= t1.subrange(0, p - a));
                }
                let (ba, bb) = trim_range(chars, a, p);
                let ghost base = trim_spec(t1.subrange(0, p - a));
                proof {
                    assert(s@.subrange(ba as int, bb as int) == base);
                }
                let piece = s.substring_char(ba, bb).to_owned();
                out.push(piece);
                proof {
                    assert(out.deep_view() =~= prior.push(base));
                }
                let close = match rfind_char(chars, a, b, '>') {
                    Some(q) => {
                        proof {
                            assert(rfind_idx(t1, '>') == q - a);
                        }
                        q
                    },
                    None => b,
                };
                let ghost spec_close = if has_char(t1, '>') {
                    rfind_idx(t1, '>')
                } else {
                    t1.len() as int
                };
                proof {
                    assert(spec_close == close - a);
                }
                if p + 1 <= close {
                    proof {
                        assert(s@.subrange(p + 1, close as int) =~= t1.subrange(
                            p - a + 1,
                            spec_close,
                        ));
                    }
                    parts_range(s, chars, p + 1, close, out);
                } else {
                    proof {
                        assert(s@.subrange(p + 1, p + 1 as int) =~= Seq::<char>::empty());
                    }
                    parts_range(s, chars, p + 1, p + 1, out);
                }
                proof {
                    assert(out.deep_view() =~= old(out).deep_view() + extract_tys_spec(t));
                }
            },
            None => {
                let piece = s.substring_char(a, b).to_owned();
                out.push(piece);
                proof {
                    assert(out.deep_view() =~= prior.push(t1));
                    assert(prior.push(t1) =~= prior + seq![t1]);
                }
            },
        }
    }
}

fn parts_range(s: &str, chars: &Vec<char>, lo: usize, hi: usize, out: &mut Vec<String>)
    requires
        chars@ == s@,
        lo <= hi <= s@.len(),
    ensures
        final(out).deep_view() == old(out).deep_view() + extract_parts_spec(
            s@.subrange(lo as int, hi as int),
        ),
    decreases hi - lo, 1int,
{
    let ghost t = s@.subrange(lo as int, hi as int);
    match find_char(chars, lo, hi, ',') {
        None => {
            extract_range(s, chars, lo, hi, out);
        },
        Some(p) => {
            proof {
                assert(first_idx(t, ',') == p - lo);
                assert(s@.subrange(lo as int, p as int) =~= t.subrange(0, p - lo));
                assert(s@.subrange(p + 1, hi as int) =~= t.subrange(p - lo + 1, t.len() as int));
            }
            let ghost prior = out.deep_view();
            extract_range(s, chars, lo, p, out);
            parts_range(s, chars, p + 1, hi, out);
            proof {
                assert(out.deep_view() =~= prior + extract_parts_spec(t));
            }
        },
    }
}

/// Whether some known struct in the corpus carries this name.
pub open spec fn known_name(all: Seq<StructModel>, n: Seq<char>) -> bool {
    exists|i: int| 0 <= i < all.len() && all[i].name == n
}

/// Adds one method's external type references that name a known struct.
pub open spec fn add_method_refs(
    acc: Seq<Seq<char>>,
    refs: Seq<Seq<char>>,
    all: Seq<StructModel>,
) -> Seq<Seq<char>>
    decreases refs.len(),
{
    if refs.len() == 0 {
        acc
    } else {
        let prev = add_method_refs(acc, refs.drop_last(), all);
        if known_name(all, refs.last()) {
            push_unique(prev, refs.last())
        } else {
            prev
        }
    }
}

/// Adds the known external type references of every method, in order.
pub open spec fn add_methods(
    acc: Seq<Seq<char>>,
    ms: Seq<MethodModel>,
    all: Seq<StructModel>,
) -> Seq<Seq<char>>
    decreases ms.len(),
{
    if ms.len() == 0 {
        acc
    } else {
        add_method_refs(add_methods(acc, ms.drop_last(), all), ms.last().external_type_refs, all)
    }
}

/// Adds the names extracted from one field's type text that name a known
/// struct other than the owning type itself.
pub open spec fn add_field_names(
    acc: Seq<Seq<char>>,
    names: Seq<Seq<char>>,
    all: Seq<StructModel>,
    own: Seq<char>,
) -> Seq<Seq<char>>
    decreases names.len(),
{
    if names.len() == 0 {
        acc
    } else {
        let prev = add_field_names(acc, names.drop_last(), all, own);
        if known_name(all, names.last()) && names.last() != own {
            push_unique(prev, names.last())
        } else {
            prev
        }
    }
}

/// Adds the coupling contributed by every field's declared type, in order.
pub open spec fn add_fields(
    acc: Seq<Seq<char>>,
    fs: Seq<FieldModel>,
    all: Seq<StructModel>,
    own: Seq<char>,
) -> Seq<Seq<char>>
    decreases fs.len(),
{
    if fs.len() == 0 {
        acc
    } else {
        add_field_names(
            add_fields(acc, fs.drop_last(), all, own),
            extract_tys_spec(fs.last().ty),
            all,
            own,
        )
    }
}

/// Adds every implemented trait name, unconditionally.
pub open spec fn add_traits(acc: Seq<Seq<char>>, ts: Seq<Seq<char>>) -> Seq<Seq<char>>
    decreases ts.len(),
{
    if ts.len() == 0 {
        acc
    } else {
        push_unique(add_traits(acc, ts.drop_last()), ts.last())
    }
}

/// The distinct coupled names of one struct: known types referenced from its
/// methods, known types (other than itself) named in its field types, and
/// every implemented trait name.
pub open spec fn cbo_seq(s: StructModel, all: Seq<StructModel>) -> Seq<Seq<char>> {
    add_traits(add_fields(add_methods(Seq::empty(), s.methods, all), s.fields, all, s.name), s.traits)
}

/// Coupling Between Objects: the number of distinct coupled names.
pub open spec fn cbo_spec(s: StructModel, all: Seq<StructModel>) -> int {
    cbo_seq(s, all).len() as int
}

/// Whether some struct in the corpus carries this name.
fn is_known(all_structs: &[StructInfo], name: &String) -> (b: bool)
    ensures
        b == known_name(models_of(all_structs@), name@),
{
    let ghost all = models_of(all_structs@);
    let n = all_structs.len();
    let mut i: usize = 0;
    while i < n
        invariant
            all == models_of(all_structs@),
            n == all_structs@.len(),
            i <= n,
            forall|j: int| 0 <= j < i ==> all[j].name != name@,
        decreases n - i,
    {
        if string_eq(&all_structs[i].name, name) {
            proof {
                assert(all[i as int].name == name@);
            }
            return true;
        }
        i += 1;
    }
    false
}

/// Calculate Coupling Between Objects (CBO): the number of distinct other
/// known types this struct depends on, through method references and field
/// types, plus every implemented trait name.
pub fn calculate(struct_info: &StructInfo, all_structs: &[StructInfo]) -> (r: usize)
    ensures
        r == cbo_spec(struct_info@, models_of(all_structs@)),
{
    let ghost all = models_of(all_structs@);
    let ghost s = struct_info@;
    let mut coupled: Vec<String> = Vec::new();

    let nm = struct_info.methods.len();
    let mut i: usize = 0;
    while i < nm
        invariant
            all == models_of(all_structs@),
            s == struct_info@,
            nm == s.methods.len(),
            i <= nm,
            coupled.deep_view() == add_methods(Seq::empty(), s.methods.take(i as int), all),
        decreases nm - i,
    {
        let refs = &struct_info.methods[i].external_type_refs;
        let nr = refs.len();
        let ghost rs = s.methods[i as int].external_type_refs;
        let mut k: usize = 0;
        while k < nr
            invariant
                all == models_of(all_structs@),
                s == struct_info@,
                i < s.methods.len(),
                rs == s.methods[i as int].external_type_refs,
                refs == &struct_info.methods[i as int].external_type_refs,
                nr == rs.len(),
                k <= nr,
                coupled.deep_view() == add_method_refs(
                    add_methods(Seq::empty(), s.methods.take(i as int), all),
                    rs.take(k as int),
                    all,
                ),
            decreases nr - k,
        {
            proof {
                assert(rs.take(k + 1).drop_last() =~= rs.take(k as int));
                assert(rs.take(k + 1).last() == rs[k as int]);
                assert(rs[k as int] == refs@[k as int]@);
            }
            let name = &refs[k];
            if is_known(all_structs, name) {
                insert_unique(&mut coupled, name);
            }
            k += 1;
        }
        proof {
            assert(rs.take(rs.len() as int) =~= rs);
            assert(s.methods.take(i + 1).drop_last() =~= s.methods.take(i as int));
            assert(s.methods.take(i + 1).last() == s.methods[i as int]);
        }
        i += 1;
    }
    proof {
        assert(s.methods.take(s.methods.len() as int) =~= s.methods);
    }

    let nf = struct_info.fields.len();
    let mut j: usize = 0;
    while j < nf
        invariant
            all == models_of(all_structs@),
            s == struct_info@,
            nf == s.fields.len(),
            j <= nf,
            coupled.deep_view() == add_fields(
                add_methods(Seq::empty(), s.methods, all),
                s.fields.take(j as int),
                all,
                s.name,
            ),
        decreases nf - j,
    {
        let names = extract_all_types(struct_info.fields[j].ty.as_str());
        let ghost ns = extract_tys_spec(s.fields[j as int].ty);
        proof {
            assert(struct_info.fields@[j as int]@.ty == s.fields[j as int].ty);
        }
        let nn = names.len();
        let mut k: usize = 0;
        while k < nn
            invariant
                all == models_of(all_structs@),
                s == struct_info@,
                j < s.fields.len(),
                ns == extract_tys_spec(s.fields[j as int].ty),
                names.deep_view() == ns,
                nn == ns.len(),
                k <= nn,
                coupled.deep_view() == add_field_names(
                    add_fields(
                        add_methods(Seq::empty(), s.methods, all),
                        s.fields.take(j as int),
                        all,
                        s.name,
                    ),
                    ns.take(k as int),
                    all,
                    s.name,
                ),
            decreases nn - k,
        {
            proof {
                assert(ns.take(k + 1).drop_last() =~= ns.take(k as int));
                assert(ns.take(k + 1).last() == ns[k as int]);
                assert(ns[k as int] == names@[k as int]@);
            }
            let name = &names[k];
            if is_known(all_structs, name) && !string_eq(name, &struct_info.name) {
                insert_unique(&mut coupled, name);
            }
            k += 1;
        }
        proof {
            assert(ns.take(ns.len() as int) =~= ns);
            assert(s.fields.take(j + 1).drop_last() =~= s.fields.take(j as int));
            assert(s.fields.take(j + 1).last() == s.fields[j as int]);
        }
        j += 1;
    }
    proof {
        assert(s.fields.take(s.fields.len() as int) =~= s.fields);
    }

    let nt = struct_info.traits.len();
    let mut k: usize = 0;
    while k < nt
        invariant
            all == models_of(all_structs@),
            s == struct_info@,
            nt == s.traits.len(),
            k <= nt,
            coupled.deep_view() == add_traits(
                add_fields(
                    add_methods(Seq::empty(), s.methods, all),
                    s.fields,
                    all,
                    s.name,
                ),
                s.traits.take(k as int),
            ),
        decreases nt - k,
    {
        proof {
            assert(s.traits.take(k + 1).drop_last() =~= s.traits.take(k as int));
            assert(s.traits.take(k + 1).last() == s.traits[k as int]);
            assert(s.traits[k as int] == struct_info.traits@[k as int]@);
        }
        insert_unique(&mut coupled, &struct_info.traits[k]);
        k += 1;
    }
    proof {
        assert(s.traits.take(s.traits.len() as int) =~= s.traits);
    }
    coupled.len()
}

} // verus!
