pub mod numbers;
pub mod scalars;
pub mod option;
pub mod result;
pub mod seqs;
pub mod strings;
pub mod tuples;
pub mod bound;
pub mod ordering;
pub mod phantom_data;
pub mod refs;
pub mod cow;
