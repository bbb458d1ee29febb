#[test]
fn test1() {}

#[test]
fn test2() {}
