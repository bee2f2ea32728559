use vstd::prelude::*;
use vstd::string::StringExecFns;

verus! {

/// The texts of a list of path components.
pub open spec fn parts_view(parts: Seq<String>) -> Seq<Seq<char>> {
    parts.map_values(|s: String| s@)
}

/// A copy of a list of path components.
fn copy_parts(parts: &Vec<String>) -> (r: Vec<String>)
    ensures
        parts_view(r@) == parts_view(parts@),
{
    let mut r: Vec<String> = Vec::new();
    let mut i: usize = 0;
    while i < parts.len()
        invariant
            i <= parts@.len(),
            r@.len() == i,
            forall|j: int| 0 <= j < i ==> #[trigger] r@[j]@ == parts@[j]@,
        decreases parts@.len() - i,
    {
        let s = parts[i].clone();
        r.push(s);
        i = i + 1;
    }
    proof {
        assert(parts_view(r@) =~= parts_view(parts@));
    }
    r
}

/// The data directory of one material, as the path components to push onto
/// an empty path in order: the root directory, then the subdirectory if one
/// is given, then the material's prefix. Each component is kept as given, so
/// an empty or absolute one has the effect that pushing it onto a path has.
pub fn build_work(work_base: &str, subdir: Option<&str>, prefix: &str) -> (r: Vec<String>)
    ensures
        subdir is None ==> parts_view(r@) == seq![work_base@, prefix@],
        subdir is Some ==> parts_view(r@) == seq![work_base@, subdir->Some_0@, prefix@],
{
    let mut work: Vec<String> = Vec::new();
    work.push(String::from_str(work_base));
    if let Some(sub) = subdir {
        work.push(String::from_str(sub));
    }
    work.push(String::from_str(prefix));
    proof {
        assert(parts_view(work@) =~= (if subdir is None {
            seq![work_base@, prefix@]
        } else {
            seq![work_base@, subdir->Some_0@, prefix@]
        }));
    }
    work
}

/// The self-consistent-field output of a material:
/// `work/scf/<prefix>.save/data-file.xml`.
pub fn get_scf_path(work: &Vec<String>, prefix: &str) -> (r: Vec<String>)
    ensures
        parts_view(r@) == parts_view(work@) + seq!["scf"@, prefix@ + ".save"@, "data-file.xml"@],
{
    let mut scf_path = copy_parts(work);
    scf_path.push(String::from_str("scf"));
    let mut save = String::from_str(prefix);
    save.append(".save");
    scf_path.push(save);
    scf_path.push(String::from_str("data-file.xml"));
    proof {
        assert(parts_view(scf_path@) =~= parts_view(work@) + seq![
            "scf"@,
            prefix@ + ".save"@,
            "data-file.xml"@,
        ]);
    }
    scf_path
}

/// The real-space Hamiltonian of a material: `work/wannier/<prefix>_hr.dat`.
pub fn get_hr_path(work: &Vec<String>, prefix: &str) -> (r: Vec<String>)
    ensures
        parts_view(r@) == parts_view(work@) + seq!["wannier"@, prefix@ + "_hr.dat"@],
{
    let mut hr_path = copy_parts(work);
    hr_path.push(String::from_str("wannier"));
    let mut hr = String::from_str(prefix);
    hr.append("_hr.dat");
    hr_path.push(hr);
    proof {
        assert(parts_view(hr_path@) =~= parts_view(work@) + seq!["wannier"@, prefix@ + "_hr.dat"@]);
    }
    hr_path
}

} // verus!
