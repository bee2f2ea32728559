use tb_w90_dos::{build_work, get_hr_path, get_scf_path};

#[test]
fn work_dir_with_subdir() {
    assert_eq!(build_work("/data", Some("run1"), "Fe"), vec!["/data", "run1", "Fe"]);
}

#[test]
fn work_dir_without_subdir() {
    assert_eq!(build_work("/data", None, "Fe"), vec!["/data", "Fe"]);
}

#[test]
fn scf_path_under_work_dir() {
    let work = build_work("/data", None, "Fe");
    assert_eq!(
        get_scf_path(&work, "Fe"),
        vec!["/data", "Fe", "scf", "Fe.save", "data-file.xml"]
    );
}

#[test]
fn hr_path_under_work_dir() {
    let work = build_work("/data", Some("run1"), "MoS2");
    assert_eq!(
        get_hr_path(&work, "MoS2"),
        vec!["/data", "run1", "MoS2", "wannier", "MoS2_hr.dat"]
    );
}
