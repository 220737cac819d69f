use inline_python::block::{FromInlinePython, PythonBlock};

#[test]
fn python_block_keeps_code_and_binder() {
    let b: PythonBlock<u32> = FromInlinePython::from_python_macro(b"\x01\x02\x03", 7u32);
    let (code, f) = b.into_parts();
    assert_eq!(code, &[1u8, 2, 3][..]);
    assert_eq!(f, 7);
}
