pub mod co_op_translator;
