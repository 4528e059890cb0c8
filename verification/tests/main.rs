use cstring::{CString, CSubStr};

#[test]
fn main() {
    let _al = CSubStr::from_str_unchecked("al");

    let correct = CString::from_string("Alex!".to_string()).unwrap();
    let upper = correct.to_uppercase();
    let lower = correct.to_lowercase();

    println!(
        "{}\n{}\n{}",
        String::from_utf8(correct.as_bytes()).unwrap(),
        String::from_utf8(upper.as_bytes()).unwrap(),
        String::from_utf8(lower.as_bytes()).unwrap()
    );
}
