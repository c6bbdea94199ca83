use absurd::MonadExt;
use absurd::SizedMonadExt;

#[test]
fn monad_ignore_and_apply() {
    7u8.ignore();
    let x = 4.apply(|x| x * 2);
    assert_eq!(x, 8);
}
