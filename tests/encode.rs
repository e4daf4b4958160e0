use maunakea::encode::format_inputs;

#[test]
fn format_inputs_test() {
    let expected = format!("1,f,{}\n5,f,{}\n2,f,{}\n", 4.2f64, 99.3f64, 55.9f64);
    let got = format_inputs(vec![4200, 99300, 99300, 99300, 99300, 99300, 55900, 55900]);
    assert_eq!(expected, got);
}

#[test]
fn format_inputs_literal_output() {
    let got = format_inputs(vec![4200, 99300, 99300, 99300, 99300, 99300, 55900, 55900]);
    assert_eq!(got, "1,f,4.2\n5,f,99.3\n2,f,55.9\n");
}

#[test]
fn format_inputs_fractions() {
    assert_eq!(format_inputs(vec![5000]), "1,f,5\n");
    assert_eq!(format_inputs(vec![4050]), "1,f,4.05\n");
    assert_eq!(format_inputs(vec![4005, 4005]), "2,f,4.005\n");
    assert_eq!(format_inputs(vec![0, 359999]), "1,f,0\n1,f,359.999\n");
    assert_eq!(format_inputs(vec![12, 12, 12, 100]), "3,f,0.012\n1,f,0.1\n");
}

#[test]
fn format_inputs_runs_split_on_change() {
    assert_eq!(format_inputs(vec![1000, 2000, 1000]), "1,f,1\n1,f,2\n1,f,1\n");
    let long = vec![90000; 12];
    assert_eq!(format_inputs(long), "12,f,90\n");
}

#[test]
fn format_inputs_empty() {
    assert_eq!(format_inputs(vec![]), "");
}
