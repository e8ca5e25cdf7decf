pub mod rv32i;
