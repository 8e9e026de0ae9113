//! The records that the archive's files hold and that queries answer.
//!
//! Every field is kept as the text that the source gives; none is
//! interpreted here.

use vstd::prelude::*;

verus! {

/// A company, as one line of the companies file gives it.
#[derive(Debug, Clone)]
pub struct Empresa {
    pub cnpj_basico: String,
    pub razao_social: String,
    pub natureza_juridica: String,
    pub qualificacao_responsavel: String,
    pub capital_social_str: String,
    pub porte_empresa: String,
    pub ente_federativo_responsavel: String,
}

/// An establishment (head office or branch), as one line of the establishments file gives it.
#[derive(Debug, Clone)]
pub struct Estabelecimento {
    pub cnpj_basico: String,
    pub cnpj_ordem: String,
    pub cnpj_dv: String,
    pub matriz_filial: String,
    pub nome_fantasia: String,
    pub situacao_cadastral: String,
    pub data_situacao_cadastral: String,
    pub motivo_situacao_cadastral: String,
    pub nome_cidade_exterior: String,
    pub pais: String,
    pub data_inicio_atividades: String,
    pub cnae_fiscal: String,
    pub cnae_fiscal_secundaria: String,
    pub tipo_logradouro: String,
    pub logradouro: String,
    pub numero: String,
    pub complemento: String,
    pub bairro: String,
    pub cep: String,
    pub uf: String,
    pub municipio: String,
    pub ddd1: String,
    pub telefone1: String,
    pub ddd2: String,
    pub telefone2: String,
    pub ddd_fax: String,
    pub fax: String,
    pub correio_eletronico: String,
    pub situacao_especial: String,
    pub data_situacao_especial: String,
}

/// A partner of a company, as one line of the partners file gives it.
#[derive(Debug, Clone)]
pub struct Socio {
    pub cnpj_basico: String,
    pub identificador_de_socio: String,
    pub nome_socio: String,
    pub cnpj_cpf_socio: String,
    pub qualificacao_socio: String,
    pub data_entrada_sociedade: String,
    pub pais: String,
    pub representante_legal: String,
    pub nome_representante: String,
    pub qualificacao_representante_legal: String,
    pub faixa_etaria: String,
}

/// The standing of a company under the simplified tax regimes.
#[derive(Debug, Clone)]
pub struct Simples {
    pub cnpj_basico: String,
    pub opcao_simples: String,
    pub data_opcao_simples: String,
    pub data_exclusao_simples: String,
    pub opcao_mei: String,
    pub data_opcao_mei: String,
    pub data_exclusao_mei: String,
}

/// One entry of a code table: a code and what it stands for.
#[derive(Debug, Clone)]
pub struct CodigoDescricao {
    pub codigo: String,
    pub descricao: String,
}

/// An establishment as a query answers it: its own fields and the descriptions of the codes it holds.
#[derive(Debug, Clone)]
pub struct EstabelecimentoCompleto {
    pub cnpj: String,
    pub cnpj_basico: String,
    pub cnpj_ordem: String,
    pub cnpj_dv: String,
    pub matriz_filial: String,
    pub nome_fantasia: String,
    pub situacao_cadastral: String,
    pub data_situacao_cadastral: String,
    pub motivo_situacao_cadastral: String,
    pub motivo_situacao_cadastral_desc: Option<String>,
    pub nome_cidade_exterior: String,
    pub pais: String,
    pub pais_desc: Option<String>,
    pub data_inicio_atividades: String,
    pub cnae_fiscal: String,
    pub cnae_fiscal_desc: Option<String>,
    pub cnae_fiscal_secundaria: String,
    pub tipo_logradouro: String,
    pub logradouro: String,
    pub numero: String,
    pub complemento: String,
    pub bairro: String,
    pub cep: String,
    pub uf: String,
    pub municipio: String,
    pub municipio_desc: Option<String>,
    pub ddd1: String,
    pub telefone1: String,
    pub ddd2: String,
    pub telefone2: String,
    pub ddd_fax: String,
    pub fax: String,
    pub correio_eletronico: String,
    pub situacao_especial: String,
    pub data_situacao_especial: String,
}

/// A partner as a query answers it: its own fields and the descriptions of the codes it holds.
#[derive(Debug, Clone)]
pub struct SocioCompleto {
    pub cnpj: String,
    pub cnpj_basico: String,
    pub identificador_de_socio: String,
    pub nome_socio: String,
    pub cnpj_cpf_socio: String,
    pub qualificacao_socio: String,
    pub qualificacao_socio_desc: Option<String>,
    pub data_entrada_sociedade: String,
    pub pais: String,
    pub pais_desc: Option<String>,
    pub representante_legal: String,
    pub nome_representante: String,
    pub qualificacao_representante_legal: String,
    pub qualificacao_representante_legal_desc: Option<String>,
    pub faixa_etaria: String,
}

/// The standing under the simplified tax regimes as a query answers it.
#[derive(Debug, Clone)]
pub struct SimplesDados {
    pub cnpj_basico: String,
    pub opcao_simples: String,
    pub data_opcao_simples: String,
    pub data_exclusao_simples: String,
    pub opcao_mei: String,
    pub data_opcao_mei: String,
    pub data_exclusao_mei: String,
}

} // verus!
