//! Device path resolution.
//!
//! The package-mirror tree inside the build root reflects the device's
//! installed filesystem layout. A changed build file is resolved to its
//! device path by base name: every regular file in the mirror whose base
//! name equals the build file's base name is a candidate, named by its path
//! relative to the mirror root. Zero candidates means the file has no
//! installed location; more than one is an ambiguity the caller must treat
//! as an error rather than merge.

use vstd::prelude::*;

verus! {

use vstd::std_specs::cmp::PartialEqSpec;

/// The views of a sequence of byte-string paths, in order.
pub open spec fn path_views(s: Seq<Vec<u8>>) -> Seq<Seq<u8>> {
    s.map_values(|v: Vec<u8>| v@)
}

/// The base name of a path: the bytes after the last `/` (the whole path
/// when it has none, empty when it ends in `/`).
pub open spec fn spec_base_name(s: Seq<u8>) -> Seq<u8>
    decreases s.len(),
{
    if s.len() == 0 {
        s
    } else if s.last() == 47u8 {
        Seq::empty()
    } else {
        spec_base_name(s.drop_last()).push(s.last())
    }
}

/// The base name of `p`: the bytes after its last `/` separator.
pub fn base_name(p: &Vec<u8>) -> (r: Vec<u8>)
    ensures
        r@ == spec_base_name(p@),
{
    let mut start: usize = 0;
    let mut i: usize = 0;
    proof {
        assert(spec_base_name(p@.subrange(0, 0)) =~= p@.subrange(0, 0));
    }
    while i < p.len()
        invariant
            start <= i <= p.len(),
            spec_base_name(p@.subrange(0, i as int)) == p@.subrange(start as int, i as int),
        decreases p.len() - i,
    {
        proof {
            let next = p@.subrange(0, i + 1 as int);
            assert(next.drop_last() =~= p@.subrange(0, i as int));
            assert(next.last() == p@[i as int]);
        }
        if p[i] == 47 {
            start = i + 1;
            proof {
                assert(spec_base_name(p@.subrange(0, i + 1 as int)) =~= p@.subrange(
                    start as int,
                    i + 1 as int,
                ));
            }
        } else {
            proof {
                assert(spec_base_name(p@.subrange(0, i + 1 as int)) =~= p@.subrange(
                    start as int,
                    i + 1 as int,
                ));
            }
        }
        i = i + 1;
    }
    proof {
        assert(p@.subrange(0, p@.len() as int) =~= p@);
    }
    let mut r: Vec<u8> = Vec::new();
    let mut j: usize = start;
    while j < p.len()
        invariant
            start <= j <= p.len(),
            r@ == p@.subrange(start as int, j as int),
        decreases p.len() - j,
    {
        r.push(p[j]);
        proof {
            assert(r@ =~= p@.subrange(start as int, j + 1 as int));
        }
        j = j + 1;
    }
    r
}

/// The device-path resolver: the relative paths among `mirror` whose base
/// name equals `file_name`, in mirror order. `mirror` holds the path of
/// every regular file in the package-mirror tree, relative to the mirror
/// root.
pub fn find_device_path(file_name: &Vec<u8>, mirror: &Vec<Vec<u8>>) -> (r: Vec<Vec<u8>>)
    ensures
        path_views(r@) == path_views(mirror@).filter(
            |p: Seq<u8>| spec_base_name(p) == file_name@,
        ),
{
    let ghost pred = |p: Seq<u8>| spec_base_name(p) == file_name@;
    let mut r: Vec<Vec<u8>> = Vec::new();
    let mut i: usize = 0;
    proof {
        assert(path_views(mirror@.subrange(0, 0)) =~= Seq::<Seq<u8>>::empty());
        assert(path_views(r@) =~= Seq::<Seq<u8>>::empty());
        reveal(Seq::filter);
    }
    while i < mirror.len()
        invariant
            i <= mirror.len(),
            path_views(r@) == path_views(mirror@.subrange(0, i as int)).filter(pred),
            pred == (|p: Seq<u8>| spec_base_name(p) == file_name@),
        decreases mirror.len() - i,
    {
        proof {
            let next = path_views(mirror@.subrange(0, i + 1 as int));
            assert(next.drop_last() =~= path_views(mirror@.subrange(0, i as int)));
            assert(next.last() == mirror@[i as int]@);
            reveal(Seq::filter);
        }
        let name = base_name(&mirror[i]);
        if name == *file_name {
            proof {
                assert(name@ =~= file_name@);
            }
            let entry = clone_path(&mirror[i]);
            r.push(entry);
            proof {
                assert(path_views(r@.drop_last()) =~= path_views(r@).drop_last());
                assert(path_views(r@) =~= path_views(r@).drop_last().push(mirror@[i as int]@));
            }
        } else {
            proof {
                if name@ == file_name@ {
                    assert(name.eq_spec(file_name));
                    assert(false);
                }
            }
        }
        i = i + 1;
    }
    proof {
        assert(mirror@.subrange(0, mirror@.len() as int) =~= mirror@);
    }
    r
}

/// Copy a byte-string path.
pub fn clone_path(p: &Vec<u8>) -> (r: Vec<u8>)
    ensures
        r@ == p@,
{
    let r = p.clone();
    proof {
        assert forall|i: int| 0 <= i < p@.len() implies r@[i] == p@[i] by {}
        assert(r@ =~= p@);
    }
    r
}

} // verus!
